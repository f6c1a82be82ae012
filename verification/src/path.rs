//! File names in paths whose components are separated by slashes.

use vstd::prelude::*;
use vstd::string::*;

use crate::text::chars_of;

verus! {

/// What follows the last slash of a path; all of it if there is none.
pub open spec fn last_piece(path: Seq<char>) -> Seq<char>
    decreases path.len(),
{
    if path.len() == 0 || path.last() == '/' {
        Seq::empty()
    } else {
        last_piece(path.drop_last()).push(path.last())
    }
}

/// The final component of a path. Repeated and trailing slashes, and pieces that
/// are a single dot, do not count; two dots lead up, and are no name.
pub open spec fn final_component(path: Seq<char>) -> Option<Seq<char>>
    decreases path.len(),
{
    let piece = last_piece(path);
    if piece.len() == 0 || piece == seq!['.'] {
        if piece.len() >= path.len() {
            None
        } else {
            final_component(path.take(path.len() - piece.len() - 1))
        }
    } else if piece == seq!['.', '.'] {
        None
    } else {
        Some(piece)
    }
}

/// Where the last piece of a path starts.
proof fn lemma_last_piece(path: Seq<char>, start: int)
    requires
        0 <= start <= path.len(),
        start > 0 ==> path[start - 1] == '/',
        forall|i: int| start <= i < path.len() ==> path[i] != '/',
    ensures
        last_piece(path) == path.skip(start),
    decreases path.len(),
{
    if start < path.len() {
        assert(path.last() == path[path.len() - 1]);
        lemma_last_piece(path.drop_last(), start);
        assert(path.drop_last().skip(start).push(path.last()) =~= path.skip(start));
    } else {
        assert(path.skip(start) =~= Seq::<char>::empty());
        assert(path.len() > 0 ==> path.last() == path[start - 1]);
    }
}

/// The final component of a path, if there is one.
pub fn file_name(path: &str) -> (name: Option<String>)
    ensures
        name is Some <==> final_component(path@) is Some,
        name matches Some(name) ==> Some(name@) == final_component(path@),
{
    let chars: Vec<char> = chars_of(path);
    let mut end: usize = chars.len();
    assert(path@.take(end as int) =~= path@);
    loop
        invariant
            chars@ == path@,
            end <= chars@.len(),
            final_component(path@.take(end as int)) == final_component(path@),
        decreases end,
    {
        let ghost rest = path@.take(end as int);
        let mut start: usize = end;
        while start > 0 && chars[start - 1] != '/'
            invariant
                chars@ == path@,
                start <= end <= chars@.len(),
                forall|i: int| start <= i < end ==> chars@[i] != '/',
            decreases start,
        {
            start -= 1;
        }
        let ghost piece = path@.subrange(start as int, end as int);
        proof {
            lemma_last_piece(rest, start as int);
            assert(rest.skip(start as int) =~= piece);
        }
        let count: usize = end - start;
        let dot: bool = count == 1 && chars[start] == '.';
        let dots: bool = count == 2 && chars[start] == '.' && chars[start + 1] == '.';
        proof {
            assert(count >= 1 ==> piece[0] == chars@[start as int]);
            assert(count >= 2 ==> piece[1] == chars@[start + 1]);
            assert(seq!['.'][0] == '.' && seq!['.', '.'][0] == '.' && seq!['.', '.'][1] == '.');
            assert(dot ==> piece =~= seq!['.']);
            assert(dots ==> piece =~= seq!['.', '.']);
        }
        if count == 0 || dot {
            if start == 0 {
                return None;
            }
            assert(rest.take(rest.len() - piece.len() - 1) =~= path@.take(start - 1));
            end = start - 1;
        } else if dots {
            return None;
        } else {
            return Some(String::from_str(path.substring_char(start, end)));
        }
    }
}

/// A name in a directory is the name, whatever the directory is called; and a slash
/// at the end, or a single dot behind one, makes no difference.
pub proof fn law_the_file_name_is_the_last_component(directory: Seq<char>, name: Seq<char>)
    requires
        name.len() > 0,
        forall|i: int| 0 <= i < name.len() ==> name[i] != '/',
        name != seq!['.'],
        name != seq!['.', '.'],
    ensures
        final_component(name) == Some(name),
        final_component(directory.push('/') + name) == Some(name),
        final_component((directory.push('/') + name).push('/')) == Some(name),
        final_component((directory.push('/') + name) + seq!['/', '.']) == Some(name),
{
    let path = directory.push('/') + name;
    lemma_last_piece(name, 0);
    assert(name.skip(0) =~= name);
    lemma_last_piece(path, directory.len() as int + 1);
    assert(path.skip(directory.len() as int + 1) =~= name);
    let closed = path.push('/');
    lemma_last_piece(closed, closed.len() as int);
    assert(closed.take(closed.len() - 1) =~= path);
    let dotted = path + seq!['/', '.'];
    lemma_last_piece(dotted, dotted.len() - 1);
    assert(dotted.skip(dotted.len() - 1) =~= seq!['.']);
    assert(dotted.take(dotted.len() - 1 - 1) =~= path);
}

/// A name is never empty, holds no slash, and is neither one dot nor two.
pub proof fn law_a_file_name_is_a_name(path: Seq<char>)
    ensures
        final_component(path) matches Some(name) ==> {
            &&& name.len() > 0
            &&& name != seq!['.']
            &&& name != seq!['.', '.']
            &&& forall|i: int| 0 <= i < name.len() ==> #[trigger] name[i] != '/'
        },
    decreases path.len(),
{
    lemma_piece_has_no_slash(path);
    let piece = last_piece(path);
    if (piece.len() == 0 || piece == seq!['.']) && piece.len() < path.len() {
        law_a_file_name_is_a_name(path.take(path.len() - piece.len() - 1));
    }
}

proof fn lemma_piece_has_no_slash(path: Seq<char>)
    ensures
        last_piece(path).len() <= path.len(),
        forall|i: int| 0 <= i < last_piece(path).len() ==> #[trigger] last_piece(path)[i] != '/',
    decreases path.len(),
{
    if path.len() > 0 && path.last() != '/' {
        lemma_piece_has_no_slash(path.drop_last());
    }
}

/// Whatever the path, a slash at its end makes no difference, nor does a single dot
/// behind one. What leads up, or nowhere, has no name.
pub proof fn law_trailing_slashes_and_dots_do_not_count(path: Seq<char>)
    ensures
        final_component(path.push('/')) == final_component(path),
        final_component(path + seq!['/', '.']) == final_component(path),
        final_component(path + seq!['/', '.', '.']) is None,
        final_component(seq!['.', '.']) is None,
        final_component(seq!['.']) is None,
        final_component(Seq::empty()) is None,
{
    let closed = path.push('/');
    lemma_last_piece(closed, closed.len() as int);
    assert(closed.take(closed.len() - 1) =~= path);
    let dotted = path + seq!['/', '.'];
    lemma_last_piece(dotted, dotted.len() - 1);
    assert(dotted.skip(dotted.len() - 1) =~= seq!['.']);
    assert(dotted.take(dotted.len() - 1 - 1) =~= path);
    let up = path + seq!['/', '.', '.'];
    lemma_last_piece(up, up.len() - 2);
    assert(up.skip(up.len() - 2) =~= seq!['.', '.']);
    let dots = seq!['.', '.'];
    let dot = seq!['.'];
    lemma_last_piece(dots, 0);
    lemma_last_piece(dot, 0);
    assert(dots.skip(0) =~= dots);
    assert(dot.skip(0) =~= dot);
    assert(dots.len() == 2 && dot.len() == 1);
}

}
