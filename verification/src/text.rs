//! Text split into lines, as `str::lines` and `BufRead::lines` split it: a
//! line ends at `'\n'`, a `'\r'` just before that `'\n'` belongs to the line
//! ending, and the last line needs no ending (an empty last line is no line).

use vstd::prelude::*;
use vstd::string::*;

verus! {

broadcast use vstd::string::group_string_axioms;

/// A line that ended at `'\n'`, without the `'\r'` that may precede it.
pub open spec fn strip_cr(line: Seq<char>) -> Seq<char> {
    if line.len() > 0 && line.last() == '\r' {
        line.drop_last()
    } else {
        line
    }
}

/// The lines of the rest of a text `s`, the current line so far being `cur`.
pub open spec fn lines_from(s: Seq<char>, cur: Seq<char>) -> Seq<Seq<char>>
    decreases s.len(),
{
    if s.len() == 0 {
        if cur.len() == 0 {
            Seq::empty()
        } else {
            seq![cur]
        }
    } else if s[0] == '\n' {
        seq![strip_cr(cur)] + lines_from(s.drop_first(), Seq::empty())
    } else {
        lines_from(s.drop_first(), cur.push(s[0]))
    }
}

/// The lines of a text.
pub open spec fn text_lines(s: Seq<char>) -> Seq<Seq<char>> {
    lines_from(s, Seq::empty())
}

/// Reading one more character of the text.
pub proof fn lemma_lines_from_step(s: Seq<char>, i: int, start: int)
    requires
        0 <= start <= i < s.len(),
    ensures
        s[i] == '\n' ==> lines_from(s.skip(i), s.subrange(start, i))
            == seq![strip_cr(s.subrange(start, i))] + lines_from(s.skip(i + 1), s.subrange(i + 1, i + 1)),
        s[i] != '\n' ==> lines_from(s.skip(i), s.subrange(start, i))
            == lines_from(s.skip(i + 1), s.subrange(start, i + 1)),
{
    assert(s.skip(i).drop_first() =~= s.skip(i + 1));
    assert(s.skip(i)[0] == s[i]);
    assert(s.subrange(i + 1, i + 1) =~= Seq::<char>::empty());
    assert(s.subrange(start, i).push(s[i]) =~= s.subrange(start, i + 1));
}

/// The number of lines in `text`.
pub fn line_count(text: &str) -> (count: usize)
    ensures
        count == text_lines(text@).len(),
{
    let ghost s = text@;
    let len = text.unicode_len();
    let mut count: usize = 0;
    let mut cur_len: usize = 0;
    let ghost mut start: int = 0;
    proof {
        assert(s.skip(0) =~= s);
        assert(s.subrange(0, 0) =~= Seq::<char>::empty());
    }
    for c in it: text.chars()
        invariant
            len == s.len(),
            it.seq() == s,
            0 <= start <= it.index() <= s.len(),
            cur_len == it.index() - start,
            count + lines_from(s.skip(it.index()), s.subrange(start, it.index())).len()
                == text_lines(s).len(),
            count <= start,
    {
        let ghost i = it.index();
        proof {
            lemma_lines_from_step(s, i, start);
        }
        if c == '\n' {
            count = count + 1;
            cur_len = 0;
            proof {
                start = i + 1;
            }
        } else {
            cur_len = cur_len + 1;
        }
    }
    proof {
        assert(s.skip(s.len() as int) =~= Seq::<char>::empty());
    }
    if cur_len > 0 {
        count = count + 1;
    }
    count
}

/// Lines written out, each ended by `'\n'`, as a name file holds them.
pub open spec fn joined_lines(lines: Seq<Seq<char>>) -> Seq<char>
    decreases lines.len(),
{
    if lines.len() == 0 {
        Seq::empty()
    } else {
        lines[0] + seq!['\n'] + joined_lines(lines.drop_first())
    }
}

/// A line holds no line break and does not end in `'\r'`.
pub open spec fn is_plain_line(line: Seq<char>) -> bool {
    &&& forall|i: int| 0 <= i < line.len() ==> line[i] != '\n'
    &&& !(line.len() > 0 && line.last() == '\r')
}

/// Reading a line `l` up to its `'\n'`, the current line being `cur`.
pub proof fn lemma_lines_from_line(l: Seq<char>, rest: Seq<char>, cur: Seq<char>)
    requires
        forall|i: int| 0 <= i < l.len() ==> l[i] != '\n',
    ensures
        lines_from(l + seq!['\n'] + rest, cur) == seq![strip_cr(cur + l)] + lines_from(rest, Seq::empty()),
    decreases l.len(),
{
    let s = l + seq!['\n'] + rest;
    if l.len() == 0 {
        assert(s[0] == '\n');
        assert(s.drop_first() =~= rest);
        assert(cur + l =~= cur);
    } else {
        assert(s[0] == l[0]);
        let l2 = l.drop_first();
        assert(s.drop_first() =~= l2 + seq!['\n'] + rest);
        lemma_lines_from_line(l2, rest, cur.push(l[0]));
        assert(cur.push(l[0]) + l2 =~= cur + l);
    }
}

/// Writing lines out, each ended by a line break, and reading the text back
/// gives the same lines, as long as no line holds a break or ends in `'\r'`.
pub proof fn lemma_lines_round_trip(lines: Seq<Seq<char>>)
    requires
        forall|i: int| 0 <= i < lines.len() ==> is_plain_line(#[trigger] lines[i]),
    ensures
        text_lines(joined_lines(lines)) == lines,
    decreases lines.len(),
{
    if lines.len() > 0 {
        let rest = lines.drop_first();
        assert forall|i: int| 0 <= i < rest.len() implies is_plain_line(#[trigger] rest[i]) by {
            assert(rest[i] == lines[i + 1]);
        }
        lemma_lines_round_trip(rest);
        assert(is_plain_line(lines[0]));
        lemma_lines_from_line(lines[0], joined_lines(rest), Seq::empty());
        assert(Seq::<char>::empty() + lines[0] =~= lines[0]);
        assert(seq![lines[0]] + rest =~= lines);
    }
}

/// The texts of a sequence of strings.
pub open spec fn string_views(v: Seq<String>) -> Seq<Seq<char>> {
    v.map_values(|x: String| x@)
}

/// The lines of `text`, each as a string of its own: a name file holds one
/// mole name per line.
pub fn parse_mole_names(text: &str) -> (names: Vec<String>)
    ensures
        string_views(names@) == text_lines(text@),
{
    let ghost s = text@;
    let len = text.unicode_len();
    let mut names: Vec<String> = Vec::new();
    let mut start: usize = 0;
    let mut i: usize = 0;
    let mut prev_cr = false;
    proof {
        assert(s.skip(0) =~= s);
        assert(s.subrange(0, 0) =~= Seq::<char>::empty());
        assert(string_views(names@) =~= Seq::<Seq<char>>::empty());
    }
    for c in it: text.chars()
        invariant
            s == text@,
            len == s.len(),
            it.seq() == s,
            i == it.index(),
            0 <= start <= i <= s.len(),
            prev_cr == (start < i && s[i - 1] == '\r'),
            string_views(names@) + lines_from(s.skip(i as int), s.subrange(start as int, i as int))
                == text_lines(s),
    {
        proof {
            lemma_lines_from_step(s, i as int, start as int);
        }
        if c == '\n' {
            let end = if prev_cr { i - 1 } else { i };
            let line = text.substring_char(start, end);
            let ghost old_names = names@;
            names.push(String::from_str(line));
            proof {
                let cur = s.subrange(start as int, i as int);
                if prev_cr {
                    assert(cur.drop_last() =~= s.subrange(start as int, end as int));
                }
                assert(strip_cr(cur) == line@);
                assert(string_views(names@) =~= string_views(old_names).push(line@));
                assert(s.subrange(i + 1, i + 1) =~= Seq::<char>::empty());
            }
            start = i + 1;
            prev_cr = false;
        } else {
            prev_cr = c == '\r';
        }
        i = i + 1;
    }
    proof {
        assert(s.skip(s.len() as int) =~= Seq::<char>::empty());
    }
    if start < len {
        let line = text.substring_char(start, len);
        let ghost old_names = names@;
        names.push(String::from_str(line));
        proof {
            assert(string_views(names@) =~= string_views(old_names).push(line@));
        }
    }
    names
}

} // verus!
