//! Character-level helpers shared by the scanner: turning strings into
//! character sequences, ASCII case folding, splitting at a separator, and
//! the line / marker rules that the heatmap's TODO count is built on.

use vstd::prelude::*;

verus! {

broadcast use vstd::string::group_string_axioms;

/// The characters of `s`, in order.
pub fn chars_of(s: &str) -> (r: Vec<char>)
    ensures
        r@ == s@,
{
    let mut out: Vec<char> = Vec::new();
    for c in it: s.chars()
        invariant
            out@ == it.seq().take(it.index() as int),
            it.seq() == s@,
    {
        out.push(c);
    }
    out
}

/// Whether two character vectors hold the same characters.
pub fn chars_eq(a: &Vec<char>, b: &Vec<char>) -> (r: bool)
    ensures
        r == (a@ == b@),
{
    if a.len() != b.len() {
        return false;
    }
    let mut i: usize = 0;
    while i < a.len()
        invariant
            a@.len() == b@.len(),
            0 <= i <= a@.len(),
            forall|k: int| 0 <= k < i ==> a@[k] == b@[k],
        decreases a@.len() - i,
    {
        if a[i] != b[i] {
            return false;
        }
        i = i + 1;
    }
    assert(a@ =~= b@);
    true
}

/// Whether two strings hold the same characters.
pub fn str_eq(a: &str, b: &str) -> (r: bool)
    ensures
        r == (a@ == b@),
{
    let ca = chars_of(a);
    let cb = chars_of(b);
    chars_eq(&ca, &cb)
}

/// The code of `c` after ASCII lowercasing: 'A'..='Z' move to 'a'..='z',
/// every other character keeps its code.
pub open spec fn ascii_lower_code(c: char) -> int {
    let code = c as u32;
    if 65 <= code <= 90 {
        code + 32
    } else {
        code as int
    }
}

/// Whether the ASCII-lowercased form of `s` is exactly `target`
/// (what `s.to_ascii_lowercase() == target` decides).
pub open spec fn ascii_lowercase_is(s: Seq<char>, target: Seq<char>) -> bool {
    &&& s.len() == target.len()
    &&& forall|i: int| 0 <= i < s.len() ==> ascii_lower_code(#[trigger] s[i]) == (target[i] as u32) as int
}

/// Decides `s.to_ascii_lowercase() == target`.
pub fn lowercase_matches(s: &Vec<char>, target: &str) -> (r: bool)
    ensures
        r == ascii_lowercase_is(s@, target@),
{
    let t = chars_of(target);
    if s.len() != t.len() {
        return false;
    }
    let mut i: usize = 0;
    while i < s.len()
        invariant
            s@.len() == t@.len(),
            t@ == target@,
            0 <= i <= s@.len(),
            forall|k: int| 0 <= k < i ==> ascii_lower_code(#[trigger] s@[k]) == (t@[k] as u32) as int,
        decreases s@.len() - i,
    {
        let ch: char = s[i];
        let c: u32 = ch as u32;
        let lowered: u32 = if 65 <= c && c <= 90 { c + 32 } else { c };
        assert(lowered as int == ascii_lower_code(s@[i as int]));
        if lowered != t[i] as u32 {
            return false;
        }
        i = i + 1;
    }
    true
}

/// `s` split at every occurrence of `sep`: the pieces between separators,
/// in order, empty pieces included. There is always at least one piece.
pub open spec fn split_char(s: Seq<char>, sep: char) -> Seq<Seq<char>>
    decreases s.len(),
{
    if s.len() == 0 {
        seq![Seq::<char>::empty()]
    } else {
        let p = split_char(s.drop_last(), sep);
        if s.last() == sep {
            p.push(Seq::<char>::empty())
        } else {
            p.update(p.len() - 1, p.last().push(s.last()))
        }
    }
}

/// A split always yields at least one piece, and no piece holds the separator.
pub proof fn lemma_split_char_shape(s: Seq<char>, sep: char)
    ensures
        split_char(s, sep).len() >= 1,
        forall|i: int, j: int|
            0 <= i < split_char(s, sep).len() && 0 <= j < split_char(s, sep)[i].len()
                ==> split_char(s, sep)[i][j] != sep,
    decreases s.len(),
{
    if s.len() > 0 {
        lemma_split_char_shape(s.drop_last(), sep);
        let p = split_char(s.drop_last(), sep);
        if s.last() != sep {
            let q = p.update(p.len() - 1, p.last().push(s.last()));
            assert forall|i: int, j: int| 0 <= i < q.len() && 0 <= j < q[i].len() implies q[i][j]
                != sep by {
                if i == p.len() - 1 && j == p.last().len() {
                } else if i == p.len() - 1 {
                    assert(q[i][j] == p[i][j]);
                } else {
                    assert(q[i] == p[i]);
                }
            }
        }
    }
}

/// The character sequences held by a vector of character vectors.
pub open spec fn vecs_view(v: Seq<Vec<char>>) -> Seq<Seq<char>> {
    v.map_values(|x: Vec<char>| x@)
}

/// Splits `s` at every `sep` (the exec counterpart of `split_char`).
pub fn split_chars(s: &Vec<char>, sep: char) -> (r: Vec<Vec<char>>)
    ensures
        vecs_view(r@) == split_char(s@, sep),
{
    let mut pieces: Vec<Vec<char>> = Vec::new();
    let mut cur: Vec<char> = Vec::new();
    let mut i: usize = 0;
    while i < s.len()
        invariant
            0 <= i <= s@.len(),
            vecs_view(pieces@).push(cur@) == split_char(s@.take(i as int), sep),
        decreases s@.len() - i,
    {
        let ghost before = s@.take(i as int);
        assert(s@.take(i + 1).drop_last() == before);
        let c = s[i];
        if c == sep {
            let done = cur;
            let ghost old_pieces = pieces@;
            pieces.push(done);
            cur = Vec::new();
            assert(vecs_view(pieces@) == vecs_view(old_pieces).push(done@));
            assert(vecs_view(pieces@).push(cur@) == split_char(before, sep).push(
                Seq::<char>::empty(),
            ));
        } else {
            let ghost old_cur = cur@;
            cur.push(c);
            proof {
                lemma_split_char_shape(before, sep);
                let p = split_char(before, sep);
                assert(p.last() == old_cur);
                assert(vecs_view(pieces@).push(cur@) == p.update(p.len() - 1, p.last().push(c)));
            }
        }
        i = i + 1;
    }
    assert(s@.take(s@.len() as int) == s@);
    let ghost old_pieces = pieces@;
    let ghost last = cur@;
    pieces.push(cur);
    assert(vecs_view(pieces@) == vecs_view(old_pieces).push(last));
    pieces
}

/// Whether `m` occurs in `l` as a contiguous run of characters.
pub open spec fn contains_seq(l: Seq<char>, m: Seq<char>) -> bool {
    exists|k: int| 0 <= k && k + m.len() <= l.len() && #[trigger] l.subrange(k, k + m.len()) == m
}

/// Decides whether `m` occurs in the first `end` characters of `v`.
pub fn prefix_contains(v: &Vec<char>, end: usize, m: &Vec<char>) -> (r: bool)
    requires
        end <= v@.len(),
    ensures
        r == contains_seq(v@.take(end as int), m@),
{
    let ghost l = v@.take(end as int);
    if m.len() > end {
        assert forall|k: int| 0 <= k && k + m@.len() <= l.len() implies #[trigger] l.subrange(
            k,
            k + m@.len(),
        ) != m@ by {}
        return false;
    }
    let last_start: usize = end - m.len();
    let mut k: usize = 0;
    while k <= last_start
        invariant
            m@.len() <= end <= v@.len(),
            last_start == end - m@.len(),
            l == v@.take(end as int),
            0 <= k <= last_start + 1,
            forall|j: int| 0 <= j < k ==> #[trigger] l.subrange(j, j + m@.len()) != m@,
        decreases last_start + 1 - k,
    {
        let mut j: usize = 0;
        let mut same = true;
        while j < m.len()
            invariant
                m@.len() <= end <= v@.len(),
                k + m@.len() <= end,
                0 <= j <= m@.len(),
                same == (forall|t: int| 0 <= t < j ==> v@[k + t] == m@[t]),
            decreases m@.len() - j,
        {
            if v[k + j] != m[j] {
                same = false;
            }
            j = j + 1;
        }
        if same {
            assert(l.subrange(k as int, k + m@.len()) =~= m@);
            return true;
        }
        assert(l.subrange(k as int, k + m@.len()) != m@) by {
            let t = choose|t: int| 0 <= t < m@.len() && v@[k + t] != m@[t];
            assert(l.subrange(k as int, k + m@.len())[t] == v@[k + t]);
        }
        k = k + 1;
    }
    false
}

/// A line with one trailing carriage return removed, as `str::lines` does
/// for lines that ended in "\r\n".
pub open spec fn strip_cr(l: Seq<char>) -> Seq<char> {
    if l.len() > 0 && l.last() == '\r' {
        l.drop_last()
    } else {
        l
    }
}

/// The lines of `s`, as `str::lines` yields them: split at '\n', a '\r'
/// before the '\n' removed, and no empty line after a final '\n'.
pub open spec fn text_lines(s: Seq<char>) -> Seq<Seq<char>> {
    let pieces = split_char(s, '\n');
    let ended = pieces.take(pieces.len() - 1).map_values(|l: Seq<char>| strip_cr(l));
    if pieces.last().len() == 0 {
        ended
    } else {
        ended.push(pieces.last())
    }
}

/// Whether a line carries one of the markers TODO, FIXME, XXX or HACK.
pub open spec fn has_todo_marker(l: Seq<char>) -> bool {
    ||| contains_seq(l, "TODO"@)
    ||| contains_seq(l, "FIXME"@)
    ||| contains_seq(l, "XXX"@)
    ||| contains_seq(l, "HACK"@)
}

/// How many of `lines` carry a marker.
pub open spec fn count_marked(lines: Seq<Seq<char>>) -> nat
    decreases lines.len(),
{
    if lines.len() == 0 {
        0
    } else {
        count_marked(lines.drop_last()) + if has_todo_marker(lines.last()) {
            1nat
        } else {
            0nat
        }
    }
}

/// The number of lines of `s` that carry a TODO/FIXME/XXX/HACK marker.
pub open spec fn todo_marker_count(s: Seq<char>) -> nat {
    count_marked(text_lines(s))
}

fn line_has_marker(v: &Vec<char>, end: usize, markers: &Vec<Vec<char>>) -> (r: bool)
    requires
        end <= v@.len(),
        vecs_view(markers@) == seq!["TODO"@, "FIXME"@, "XXX"@, "HACK"@],
    ensures
        r == has_todo_marker(v@.take(end as int)),
{
    assert(markers@.len() == 4) by {
        assert(vecs_view(markers@).len() == 4);
    }
    let a = prefix_contains(v, end, &markers[0]);
    let b = prefix_contains(v, end, &markers[1]);
    let c = prefix_contains(v, end, &markers[2]);
    let d = prefix_contains(v, end, &markers[3]);
    proof {
        assert(markers@[0]@ == vecs_view(markers@)[0]);
        assert(markers@[1]@ == vecs_view(markers@)[1]);
        assert(markers@[2]@ == vecs_view(markers@)[2]);
        assert(markers@[3]@ == vecs_view(markers@)[3]);
    }
    a || b || c || d
}

/// Counts the lines of `source` that hold a TODO, FIXME, XXX or HACK
/// marker; the count is cut to 32 bits as `usize as u32` does.
pub fn count_todo_markers(source: &str) -> (r: u32)
    ensures
        r == todo_marker_count(source@) as u32,
{
    let chars = chars_of(source);
    let pieces = split_chars(&chars, '\n');
    let mut markers: Vec<Vec<char>> = Vec::new();
    markers.push(chars_of("TODO"));
    markers.push(chars_of("FIXME"));
    markers.push(chars_of("XXX"));
    markers.push(chars_of("HACK"));
    assert(vecs_view(markers@) =~= seq!["TODO"@, "FIXME"@, "XXX"@, "HACK"@]);
    proof {
        lemma_split_char_shape(source@, '\n');
    }
    let ghost all = split_char(source@, '\n');
    let ghost ended = all.take(all.len() - 1).map_values(|l: Seq<char>| strip_cr(l));
    let n = pieces.len();
    let mut count: usize = 0;
    let mut i: usize = 0;
    while i + 1 < n
        invariant
            vecs_view(pieces@) == all,
            n == all.len(),
            n >= 1,
            ended == all.take(all.len() - 1).map_values(|l: Seq<char>| strip_cr(l)),
            vecs_view(markers@) == seq!["TODO"@, "FIXME"@, "XXX"@, "HACK"@],
            0 <= i <= n - 1,
            count == count_marked(ended.take(i as int)),
            count <= i,
        decreases n - i,
    {
        let line = &pieces[i];
        assert(line@ == vecs_view(pieces@)[i as int]);
        let mut end = line.len();
        if end > 0 && line[end - 1] == '\r' {
            end = end - 1;
        }
        assert(line@.take(end as int) == strip_cr(all[i as int]));
        let marked = line_has_marker(line, end, &markers);
        assert(ended.take(i + 1).drop_last() == ended.take(i as int));
        assert(ended.take(i + 1).last() == strip_cr(all[i as int]));
        if marked {
            count = count + 1;
        }
        i = i + 1;
    }
    assert(ended.take(n - 1) == ended);
    let last = &pieces[n - 1];
    assert(last@ == vecs_view(pieces@)[n - 1]);
    if last.len() > 0 {
        assert(last@.take(last@.len() as int) == last@);
        let marked = line_has_marker(last, last.len(), &markers);
        assert(ended.push(all.last()).drop_last() == ended);
        if marked {
            count = count + 1;
        }
    }
    count as u32
}

} // verus!
