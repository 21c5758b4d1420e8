//! Splitting a text into lines.
//!
//! A line is the content between line terminators; both `"\n"` and `"\r\n"`
//! terminate a line, and the terminator is not part of the line.  A trailing
//! terminator does not produce an extra empty final line, and content after
//! the last terminator forms a final line that is kept verbatim (a lone
//! trailing `'\r'` with no `'\n'` after it stays).

use vstd::prelude::*;

verus! {

/// `l` with one trailing carriage return removed, for lines whose terminator
/// was `"\r\n"`.
pub open spec fn strip_cr(l: Seq<char>) -> Seq<char> {
    if l.len() > 0 && l.last() == '\r' {
        l.drop_last()
    } else {
        l
    }
}

/// The lines of `cur + s` where `cur` holds the already-read part of the
/// current line: reading a `'\n'` closes the current line (dropping a
/// trailing `'\r'`), the end of `s` closes it verbatim, and a current line
/// that is empty at the end of `s` is no line at all.
pub open spec fn lines_from(s: Seq<char>, cur: Seq<char>) -> Seq<Seq<char>>
    decreases s.len(),
{
    if s.len() == 0 {
        if cur.len() == 0 {
            Seq::empty()
        } else {
            seq![cur]
        }
    } else if s[0] == '\n' {
        seq![strip_cr(cur)] + lines_from(s.drop_first(), Seq::empty())
    } else {
        lines_from(s.drop_first(), cur.push(s[0]))
    }
}

/// The lines of `s`, in order of appearance.
pub open spec fn lines_of(s: Seq<char>) -> Seq<Seq<char>> {
    lines_from(s, Seq::empty())
}

/// Splits `contents` into its lines, returned as views into `contents`, in
/// order of appearance.
pub fn split_lines<'a>(contents: &'a str) -> (r: Vec<&'a str>)
    ensures
        r.deep_view() == lines_of(contents@),
{
    let len = contents.unicode_len();
    let mut r: Vec<&'a str> = Vec::new();
    let mut start: usize = 0;
    let mut pos: usize = 0;
    proof {
        assert(contents@.skip(0) =~= contents@);
        assert(contents@.subrange(0, 0) =~= Seq::<char>::empty());
        assert(r.deep_view() + lines_of(contents@) =~= lines_of(contents@));
    }
    while pos < len
        invariant
            start <= pos <= len,
            len == contents@.len(),
            lines_of(contents@) == r.deep_view() + lines_from(
                contents@.skip(pos as int),
                contents@.subrange(start as int, pos as int),
            ),
        decreases len - pos,
    {
        let ghost rest = contents@.skip(pos as int);
        let ghost cur = contents@.subrange(start as int, pos as int);
        let c = contents.get_char(pos);
        if c == '\n' {
            let end = if pos > start && contents.get_char(pos - 1) == '\r' {
                pos - 1
            } else {
                pos
            };
            let line = contents.substring_char(start, end);
            proof {
                assert(line@ =~= strip_cr(cur));
                assert(rest.drop_first() =~= contents@.skip(pos + 1));
            }
            let ghost before = r.deep_view();
            r.push(line);
            proof {
                assert(r.deep_view() =~= before.push(line@));
                assert(before + (seq![strip_cr(cur)] + lines_from(
                    contents@.skip(pos + 1),
                    Seq::empty(),
                )) =~= r.deep_view() + lines_from(contents@.skip(pos + 1), Seq::empty()));
                assert(contents@.subrange(pos + 1, pos + 1) =~= Seq::<char>::empty());
            }
            start = pos + 1;
        } else {
            proof {
                assert(rest.drop_first() =~= contents@.skip(pos + 1));
                assert(cur.push(rest[0]) =~= contents@.subrange(start as int, pos + 1));
            }
        }
        pos = pos + 1;
    }
    if start < len {
        let line = contents.substring_char(start, len);
        let ghost before = r.deep_view();
        r.push(line);
        proof {
            assert(contents@.skip(len as int).len() == 0);
            assert(r.deep_view() =~= before.push(line@));
            assert(r.deep_view() =~= before + seq![line@]);
        }
    } else {
        proof {
            assert(contents@.skip(pos as int).len() == 0);
            assert(contents@.subrange(start as int, pos as int).len() == 0);
            assert(r.deep_view() + Seq::<Seq<char>>::empty() =~= r.deep_view());
        }
    }
    r
}

} // verus!
