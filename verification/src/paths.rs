//! Path components the way a Unix path is read: a leading root, then the
//! non-empty pieces between '/' separators, with "." dropped except at the
//! very start of a relative path. Scanner findings are attributed to files
//! by comparing these components, so "a/b", "a//b" and "a/./b" name the
//! same file.
//!
//! Each component is held as its text: the root as "/", a leading current
//! directory as ".", a parent directory as "..", any other as its name.

use vstd::prelude::*;
use crate::text::{chars_of, chars_eq, split_char, split_chars, vecs_view, lemma_split_char_shape};

verus! {

/// Whether `p` starts at the root.
pub open spec fn is_rooted(p: Seq<char>) -> bool {
    p.len() > 0 && p[0] == '/'
}

/// Whether the `index`-th piece between separators names a component:
/// empty pieces never do, and "." only as the first piece of a relative path.
pub open spec fn keeps_piece(piece: Seq<char>, index: int, rooted: bool) -> bool {
    piece.len() > 0 && (piece != seq!['.'] || (index == 0 && !rooted))
}

/// The pieces that name components, in order.
pub open spec fn kept_pieces(pieces: Seq<Seq<char>>, rooted: bool) -> Seq<Seq<char>>
    decreases pieces.len(),
{
    if pieces.len() == 0 {
        Seq::empty()
    } else {
        let rest = kept_pieces(pieces.drop_last(), rooted);
        if keeps_piece(pieces.last(), pieces.len() - 1, rooted) {
            rest.push(pieces.last())
        } else {
            rest
        }
    }
}

/// The components of path `p`.
pub open spec fn path_components(p: Seq<char>) -> Seq<Seq<char>> {
    let parts = kept_pieces(split_char(p, '/'), is_rooted(p));
    if is_rooted(p) {
        seq![seq!['/']] + parts
    } else {
        parts
    }
}

/// Whether the components `b` are the last components of `a`
/// (an empty `b` ends every path).
pub open spec fn components_end_with(a: Seq<Seq<char>>, b: Seq<Seq<char>>) -> bool {
    b.len() <= a.len() && a.subrange(a.len() - b.len(), a.len() as int) == b
}

/// Whether path `a` ends with path `b`, comparing whole components.
pub open spec fn path_ends_with_spec(a: Seq<char>, b: Seq<char>) -> bool {
    components_end_with(path_components(a), path_components(b))
}

/// The last component of `p` when it is a name (not the root, "." or "..").
pub open spec fn file_name(p: Seq<char>) -> Option<Seq<char>> {
    let c = path_components(p);
    if c.len() > 0 && c.last() != seq!['/'] && c.last() != seq!['.'] && c.last() != seq!['.', '.'] {
        Some(c.last())
    } else {
        None
    }
}

/// The extension of a file name: what follows its last '.', unless there is
/// no '.', or the only '.' opens the name.
pub open spec fn name_extension(name: Seq<char>) -> Option<Seq<char>> {
    let pieces = split_char(name, '.');
    if pieces.len() >= 2 && !(pieces.len() == 2 && pieces[0].len() == 0) {
        Some(pieces.last())
    } else {
        None
    }
}

/// The extension of the file that path `p` names.
pub open spec fn path_extension(p: Seq<char>) -> Option<Seq<char>> {
    match file_name(p) {
        Some(name) => name_extension(name),
        None => None,
    }
}

/// The components of `path`, each as its characters.
pub fn components_of(path: &str) -> (r: Vec<Vec<char>>)
    ensures
        vecs_view(r@) == path_components(path@),
{
    let chars = chars_of(path);
    let pieces = split_chars(&chars, '/');
    let rooted = chars.len() > 0 && chars[0] == '/';
    let mut out: Vec<Vec<char>> = Vec::new();
    if rooted {
        let mut root: Vec<char> = Vec::new();
        root.push('/');
        out.push(root);
    }
    let ghost all = split_char(path@, '/');
    let ghost start = vecs_view(out@);
    assert(start == (if rooted { seq![seq!['/']] } else { Seq::<Seq<char>>::empty() }));
    let mut i: usize = 0;
    while i < pieces.len()
        invariant
            vecs_view(pieces@) == all,
            rooted == is_rooted(path@),
            start == (if rooted { seq![seq!['/']] } else { Seq::<Seq<char>>::empty() }),
            0 <= i <= pieces@.len(),
            vecs_view(out@) == start + kept_pieces(all.take(i as int), rooted),
        decreases pieces@.len() - i,
    {
        let piece = &pieces[i];
        assert(piece@ == all[i as int]);
        assert(all.take(i + 1).drop_last() == all.take(i as int));
        let dot = piece.len() == 1 && piece[0] == '.';
        proof {
            if dot {
                assert(piece@ =~= seq!['.']);
            }
        }
        assert(dot == (piece@ == seq!['.']));
        let keep = piece.len() > 0 && (!dot || (i == 0 && !rooted));
        if keep {
            let ghost before = out@;
            let mut copy: Vec<char> = Vec::new();
            let mut j: usize = 0;
            while j < piece.len()
                invariant
                    0 <= j <= piece@.len(),
                    copy@ == piece@.take(j as int),
                decreases piece@.len() - j,
            {
                copy.push(piece[j]);
                j = j + 1;
            }
            assert(piece@.take(piece@.len() as int) == piece@);
            out.push(copy);
            assert(vecs_view(out@) == vecs_view(before).push(piece@));
        }
        i = i + 1;
    }
    assert(all.take(all.len() as int) == all);
    out
}

/// Whether the components `b` end the components `a`.
pub fn components_end_with_exec(a: &Vec<Vec<char>>, b: &Vec<Vec<char>>) -> (r: bool)
    ensures
        r == components_end_with(vecs_view(a@), vecs_view(b@)),
{
    let ghost av = vecs_view(a@);
    let ghost bv = vecs_view(b@);
    if b.len() > a.len() {
        return false;
    }
    let alen = a.len();
    let offset = alen - b.len();
    let mut i: usize = 0;
    while i < b.len()
        invariant
            av == vecs_view(a@),
            bv == vecs_view(b@),
            b@.len() <= a@.len(),
            offset == a@.len() - b@.len(),
            offset + b@.len() == a@.len(),
            alen == a@.len(),
            0 <= i <= b@.len(),
            forall|k: int| 0 <= k < i ==> av[offset + k] == bv[k],
        decreases b@.len() - i,
    {
        let same = chars_eq(&a[offset + i], &b[i]);
        if !same {
            assert(av.subrange(offset as int, a@.len() as int)[i as int] != bv[i as int]);
            return false;
        }
        i = i + 1;
    }
    assert(av.subrange(offset as int, a@.len() as int) =~= bv);
    true
}

/// Whether path `a` ends with path `b`, comparing whole components, as
/// `Path::ends_with` does.
pub fn path_ends_with(a: &str, b: &str) -> (r: bool)
    ensures
        r == path_ends_with_spec(a@, b@),
{
    let ca = components_of(a);
    let cb = components_of(b);
    components_end_with_exec(&ca, &cb)
}

/// The extension of the file that `path` names, as its characters.
pub fn extension_of(path: &str) -> (r: Option<Vec<char>>)
    ensures
        match r {
            Some(e) => path_extension(path@) == Some(e@),
            None => path_extension(path@) is None,
        },
{
    let comps = components_of(path);
    let n = comps.len();
    if n == 0 {
        return None;
    }
    let last = &comps[n - 1];
    assert(last@ == vecs_view(comps@).last());
    let is_root = last.len() == 1 && last[0] == '/';
    let is_cur = last.len() == 1 && last[0] == '.';
    let is_parent = last.len() == 2 && last[0] == '.' && last[1] == '.';
    proof {
        if is_root {
            assert(last@ =~= seq!['/']);
        }
        if is_cur {
            assert(last@ =~= seq!['.']);
        }
        if is_parent {
            assert(last@ =~= seq!['.', '.']);
        }
    }
    assert(is_root == (last@ == seq!['/']));
    assert(is_cur == (last@ == seq!['.']));
    assert(is_parent == (last@ == seq!['.', '.']));
    if is_root || is_cur || is_parent {
        return None;
    }
    let pieces = split_chars(last, '.');
    proof {
        lemma_split_char_shape(last@, '.');
    }
    let m = pieces.len();
    if m >= 2 && !(m == 2 && pieces[0].len() == 0) {
        assert(pieces@[0]@ == vecs_view(pieces@)[0]);
        let ext = &pieces[m - 1];
        assert(ext@ == vecs_view(pieces@).last());
        let mut copy: Vec<char> = Vec::new();
        let mut j: usize = 0;
        while j < ext.len()
            invariant
                0 <= j <= ext@.len(),
                copy@ == ext@.take(j as int),
            decreases ext@.len() - j,
        {
            copy.push(ext[j]);
            j = j + 1;
        }
        assert(ext@.take(ext@.len() as int) == ext@);
        Some(copy)
    } else {
        proof {
            if m >= 2 {
                assert(pieces@[0]@ == vecs_view(pieces@)[0]);
            }
        }
        None
    }
}

} // verus!
