//! Paths, as texts with `/` between their components.

use vstd::prelude::*;
use vstd::string::*;
use crate::text::{
    chars_of, lemma_pieces_apart, lemma_pieces_are_free, lemma_pieces_len, pieces, same, split,
    str_opt,
};

verus! {

/// `name` below the directory `dir`; an absolute `name` stands for itself.
pub open spec fn path_join(dir: Seq<char>, name: Seq<char>) -> Seq<char> {
    if name.len() > 0 && name[0] == '/' {
        name
    } else if dir.len() == 0 || dir.last() == '/' {
        dir + name
    } else {
        dir + seq!['/'] + name
    }
}

/// The last component that is neither empty nor the current directory.
pub open spec fn last_component(components: Seq<Seq<char>>) -> Option<Seq<char>>
    decreases components.len(),
{
    if components.len() == 0 {
        None
    } else if components.last().len() == 0 || components.last() == "."@ {
        last_component(components.drop_last())
    } else {
        Some(components.last())
    }
}

/// The final component of a path, unless that is the parent directory.
pub open spec fn file_name_of(path: Seq<char>) -> Option<Seq<char>> {
    match last_component(pieces(path, '/')) {
        Some(c) => if c == ".."@ {
            None
        } else {
            Some(c)
        },
        None => None,
    }
}

/// The pieces that are neither empty nor the current directory.
pub open spec fn named_pieces(parts: Seq<Seq<char>>) -> Seq<Seq<char>>
    decreases parts.len(),
{
    if parts.len() == 0 {
        parts
    } else if parts.last().len() == 0 || parts.last() == "."@ {
        named_pieces(parts.drop_last())
    } else {
        named_pieces(parts.drop_last()).push(parts.last())
    }
}

/// Where a path starts, if it says so: at the root, or in the current
/// directory.
pub open spec fn path_start(path: Seq<char>) -> Seq<Seq<char>> {
    if path.len() > 0 && path[0] == '/' {
        seq!["/"@]
    } else if pieces(path, '/')[0] == "."@ {
        seq!["."@]
    } else {
        Seq::empty()
    }
}

/// The components of a path: where it starts, then its pieces but for empty
/// ones and for the current directory.
pub open spec fn components(path: Seq<char>) -> Seq<Seq<char>> {
    path_start(path) + named_pieces(pieces(path, '/'))
}

/// The components of a path.
fn split_path<'a>(path: &'a str) -> (r: Vec<&'a str>)
    ensures
        r@.map_values(|c: &str| c@) == components(path@),
{
    let parts = split(path, '/');
    let chars = chars_of(path);
    let ghost view = |c: &str| c@;
    let ghost all = parts@.map_values(view);
    let ghost start = path_start(path@);
    let mut r: Vec<&'a str> = Vec::new();
    proof {
        lemma_pieces_len(path@, '/');
        assert(all == pieces(path@, '/'));
        assert(all[0] == parts@[0]@);
    }
    if chars.len() > 0 && chars[0] == '/' {
        r.push("/");
    } else if same(parts[0], ".") {
        r.push(".");
    }
    assert(r@.map_values(view) =~= start);
    assert(all.take(0) =~= Seq::empty());
    assert(start + named_pieces(all.take(0)) =~= start);
    let mut i: usize = 0;
    while i < parts.len()
        invariant
            i <= parts.len(),
            view == (|c: &str| c@),
            all == parts@.map_values(view),
            r@.map_values(view) == start + named_pieces(all.take(i as int)),
        decreases parts.len() - i,
    {
        let ghost done = r@.map_values(view);
        let part: &'a str = parts[i];
        proof {
            assert(all.take(i + 1).drop_last() =~= all.take(i as int));
            assert(all.take(i + 1).last() == part@);
        }
        if !part.is_empty() && !same(part, ".") {
            r.push(part);
            proof {
                assert(r@.map_values(view) =~= done.push(part@));
                assert(done.push(part@) =~= start + named_pieces(all.take(i as int)).push(part@));
            }
        }
        i = i + 1;
    }
    assert(all.take(i as int) =~= all);
    r
}

/// Whether two texts are the same path: they have the same components.
pub fn same_path(a: &str, b: &str) -> (r: bool)
    ensures
        r == (components(a@) == components(b@)),
{
    let p = split_path(a);
    let q = split_path(b);
    let ghost view = |c: &str| c@;
    assert(p@.map_values(view) == components(a@));
    assert(q@.map_values(view) == components(b@));
    if p.len() != q.len() {
        return false;
    }
    let mut i: usize = 0;
    while i < p.len()
        invariant
            i <= p.len(),
            p.len() == q.len(),
            view == (|c: &str| c@),
            p@.map_values(view) == components(a@),
            q@.map_values(view) == components(b@),
            forall|j: int| 0 <= j < i ==> components(a@)[j] == components(b@)[j],
        decreases p.len() - i,
    {
        assert(components(a@)[i as int] == p@[i as int]@);
        assert(components(b@)[i as int] == q@[i as int]@);
        if !same(p[i], q[i]) {
            return false;
        }
        i = i + 1;
    }
    assert(components(a@) =~= components(b@));
    true
}

/// `name` below the directory `dir`.
pub fn join_path(dir: &str, name: &str) -> (r: String)
    ensures
        r@ == path_join(dir@, name@),
{
    let n = chars_of(name);
    if n.len() > 0 && n[0] == '/' {
        return name.to_owned();
    }
    let d = chars_of(dir);
    let mut r: String = dir.to_owned();
    if d.len() > 0 && d[d.len() - 1] != '/' {
        r.push('/');
    }
    r.append(name);
    r
}

/// The final component of a path, unless that is the parent directory.
pub fn file_name<'a>(path: &'a str) -> (r: Option<&'a str>)
    ensures
        str_opt(r) == file_name_of(path@),
{
    let components = split(path, '/');
    let ghost all = components@.map_values(|p: &str| p@);
    let mut n: usize = components.len();
    assert(all.take(n as int) =~= all);
    while n > 0 && (components[n - 1].is_empty() || same(components[n - 1], "."))
        invariant
            n <= components.len(),
            all == components@.map_values(|p: &str| p@),
            last_component(all) == last_component(all.take(n as int)),
        decreases n,
    {
        proof {
            reveal_strlit(".");
            assert(all.take(n as int).last() == components@[n - 1]@);
            assert(all.take(n as int).drop_last() =~= all.take(n - 1));
        }
        n = n - 1;
    }
    if n == 0 {
        return None;
    }
    let c: &'a str = components[n - 1];
    assert(all.take(n as int).last() == c@);
    if same(c, "..") {
        None
    } else {
        Some(c)
    }
}

/// A slash at the end of a directory makes no difference to what is below it.
pub proof fn law_trailing_slash(dir: Seq<char>, name: Seq<char>)
    requires
        dir.len() > 0,
        dir.last() != '/',
    ensures
        path_join(dir + seq!['/'], name) == path_join(dir, name),
{
}

/// The pieces of two rows of pieces are those of the one and of the other.
proof fn lemma_named_pieces(a: Seq<Seq<char>>, b: Seq<Seq<char>>)
    ensures
        named_pieces(a + b) == named_pieces(a) + named_pieces(b),
    decreases b.len(),
{
    if b.len() == 0 {
        assert(a + b =~= a);
        assert(named_pieces(a) + named_pieces(b) =~= named_pieces(a));
    } else {
        assert((a + b).drop_last() =~= a + b.drop_last());
        lemma_named_pieces(a, b.drop_last());
        assert(named_pieces(a + b) =~= named_pieces(a) + named_pieces(b));
    }
}

/// The components of a path that goes on behind a slash.
proof fn lemma_components_go_on(dir: Seq<char>, rest: Seq<char>)
    requires
        dir.len() > 0,
    ensures
        components(dir + seq!['/'] + rest) == components(dir) + named_pieces(pieces(rest, '/')),
{
    let path = dir + seq!['/'] + rest;
    lemma_pieces_apart(dir, '/', rest);
    lemma_pieces_len(dir, '/');
    lemma_named_pieces(pieces(dir, '/'), pieces(rest, '/'));
    assert(path[0] == dir[0]);
    assert(path_start(path) == path_start(dir));
    assert(components(path) =~= components(dir) + named_pieces(pieces(rest, '/')));
}

/// A slash too many, be it within a path or at its end, and the current
/// directory within a path are no components.
pub proof fn law_components_ignore_slashes_and_dots(dir: Seq<char>, name: Seq<char>)
    requires
        dir.len() > 0,
    ensures
        components(dir + seq!['/']) == components(dir),
        components(dir + seq!['/', '/'] + name) == components(dir + seq!['/'] + name),
        components(dir + seq!['/', '.', '/'] + name) == components(dir + seq!['/'] + name),
{
    reveal_strlit(".");
    let nothing = Seq::<char>::empty();
    let slash = seq!['/'];
    let dot = seq!['.'];
    assert(!nothing.contains('/'));
    assert(!dot.contains('/'));
    assert("."@ =~= dot);
    lemma_components_go_on(dir, name);
    // at the end
    lemma_components_go_on(dir, nothing);
    assert(dir + slash + nothing =~= dir + slash);
    assert(seq![nothing].drop_last() =~= Seq::empty());
    assert(named_pieces(seq![nothing].drop_last()) =~= Seq::empty());
    assert(seq![nothing].last() == nothing);
    assert(named_pieces(seq![nothing]) =~= Seq::empty());
    assert(components(dir) + Seq::<Seq<char>>::empty() =~= components(dir));
    // a second one
    lemma_components_go_on(dir, slash + name);
    lemma_pieces_apart(nothing, '/', name);
    lemma_named_pieces(seq![nothing], pieces(name, '/'));
    assert(nothing + slash + name =~= slash + name);
    assert(dir + slash + (slash + name) =~= dir + seq!['/', '/'] + name);
    assert(Seq::<Seq<char>>::empty() + named_pieces(pieces(name, '/')) =~= named_pieces(
        pieces(name, '/'),
    ));
    // the current directory
    lemma_components_go_on(dir, dot + slash + name);
    lemma_pieces_apart(dot, '/', name);
    lemma_named_pieces(seq![dot], pieces(name, '/'));
    assert(seq![dot].drop_last() =~= Seq::empty());
    assert(named_pieces(seq![dot]) =~= Seq::empty());
    assert(dir + slash + (dot + slash + name) =~= dir + seq!['/', '.', '/'] + name);
}

/// Whether a text is the name of something in a directory.
pub open spec fn plain_name(name: Seq<char>) -> bool {
    name.len() > 0 && !name.contains('/') && name != "."@ && name != ".."@
}

/// The pieces of a plain name.
proof fn lemma_plain_name(name: Seq<char>)
    requires
        plain_name(name),
    ensures
        pieces(name, '/') == seq![name],
        named_pieces(seq![name]) == seq![name],
        name[0] != '/',
{
    assert(name.contains(name[0]));
    assert(seq![name].drop_last() =~= Seq::empty());
    assert(named_pieces(seq![name].drop_last()) =~= Seq::empty());
    assert(named_pieces(seq![name]) =~= seq![name]);
}

/// What is below a directory starts with the directory and ends with the name,
/// with one slash at most between them; an absolute name stands for itself.
pub proof fn law_joined_paths_hold_both(dir: Seq<char>, name: Seq<char>)
    ensures
        name.len() > 0 && name[0] == '/' ==> path_join(dir, name) == name,
        name.len() == 0 || name[0] != '/' ==> {
            let path = path_join(dir, name);
            &&& dir.is_prefix_of(path)
            &&& name.is_suffix_of(path)
            &&& dir.len() + name.len() <= path.len() <= dir.len() + 1 + name.len()
            &&& dir.len() > 0 ==> path.take(path.len() - name.len()).last() == '/'
            &&& dir.len() == 0 ==> path == name
        },
{
    let path = path_join(dir, name);
    if name.len() == 0 || name[0] != '/' {
        assert(path.subrange(0, dir.len() as int) =~= dir);
        assert(path.subrange(path.len() - name.len(), path.len() as int) =~= name);
        assert(dir.len() == 0 ==> path =~= name);
    }
}

/// A name below a directory is one component more.
pub proof fn law_names_are_one_component(dir: Seq<char>, name: Seq<char>)
    requires
        plain_name(name),
    ensures
        dir.len() > 0 ==> components(path_join(dir, name)) == components(dir).push(name),
        components(name) == seq![name],
        components(seq!['/'] + name) == seq!["/"@, name],
{
    lemma_plain_name(name);
    reveal_strlit("/");
    let slash = seq!['/'];
    let nothing = Seq::<char>::empty();
    if dir.len() > 0 {
        if dir.last() == '/' {
            let most = dir.drop_last();
            assert(dir =~= most + slash);
            if most.len() > 0 {
                law_components_ignore_slashes_and_dots(most, name);
                lemma_components_go_on(most, name);
                assert(path_join(dir, name) =~= most + slash + name);
            } else {
                assert(path_join(dir, name) =~= nothing + slash + name);
                lemma_root(name);
                assert(dir =~= slash);
                lemma_root_alone();
            }
        } else {
            lemma_components_go_on(dir, name);
        }
        assert(components(path_join(dir, name)) =~= components(dir).push(name));
    }
    assert(components(name) =~= seq![name]);
    assert(nothing + slash + name =~= slash + name);
    lemma_root(name);
}

/// The components of what is right below the root.
proof fn lemma_root(name: Seq<char>)
    requires
        plain_name(name),
    ensures
        components(Seq::<char>::empty() + seq!['/'] + name) == seq!["/"@, name],
{
    let nothing = Seq::<char>::empty();
    let path = nothing + seq!['/'] + name;
    lemma_plain_name(name);
    lemma_pieces_apart(nothing, '/', name);
    assert(!nothing.contains('/'));
    assert(pieces(path, '/') =~= seq![nothing] + seq![name]);
    lemma_named_pieces(seq![nothing], seq![name]);
    assert(seq![nothing].drop_last() =~= Seq::empty());
    assert(named_pieces(seq![nothing].drop_last()) =~= Seq::empty());
    assert(components(path) =~= seq!["/"@, name]);
}

/// The components of the root.
proof fn lemma_root_alone()
    ensures
        components(seq!['/']) == seq!["/"@],
{
    let nothing = Seq::<char>::empty();
    let path = nothing + seq!['/'] + nothing;
    assert(path =~= seq!['/']);
    lemma_pieces_apart(nothing, '/', nothing);
    assert(!nothing.contains('/'));
    lemma_named_pieces(seq![nothing], seq![nothing]);
    assert(seq![nothing].drop_last() =~= Seq::empty());
    assert(named_pieces(seq![nothing].drop_last()) =~= Seq::empty());
    assert(named_pieces(pieces(path, '/')) =~= Seq::empty());
    assert(components(path) =~= seq!["/"@]);
}

/// The last component is the last of the named pieces.
proof fn lemma_last_component(parts: Seq<Seq<char>>)
    ensures
        last_component(parts) == (if named_pieces(parts).len() == 0 {
            None
        } else {
            Some(named_pieces(parts).last())
        }),
    decreases parts.len(),
{
    if parts.len() > 0 {
        lemma_last_component(parts.drop_last());
    }
}

/// The file name of a path is its last component: the name that was put below a
/// directory, with or without a slash or a dot behind it.  The parent directory
/// is no file name.
pub proof fn law_file_name_is_the_last_component(dir: Seq<char>, name: Seq<char>)
    requires
        plain_name(name),
    ensures
        file_name_of(path_join(dir, name)) == Some(name),
        file_name_of(path_join(dir, name) + seq!['/']) == Some(name),
        file_name_of(path_join(dir, name) + seq!['/', '.']) == Some(name),
        file_name_of(dir + seq!['/', '.', '.']) is None,
{
    reveal_strlit(".");
    reveal_strlit("..");
    let nothing = Seq::<char>::empty();
    let slash = seq!['/'];
    let path = path_join(dir, name);
    lemma_plain_name(name);
    let head = path.take(path.len() - name.len());
    law_joined_paths_hold_both(dir, name);
    lemma_last_component(pieces(path, '/'));
    if dir.len() == 0 {
        assert(path =~= name);
    } else {
        let most = head.drop_last();
        assert(path =~= most + slash + name);
        lemma_pieces_apart(most, '/', name);
        lemma_named_pieces(pieces(most, '/'), seq![name]);
    }
    assert(named_pieces(pieces(path, '/')).last() == name);
    // a slash behind it
    lemma_pieces_apart(path, '/', nothing);
    assert(!nothing.contains('/'));
    assert(path + slash + nothing =~= path + slash);
    lemma_named_pieces(pieces(path, '/'), seq![nothing]);
    assert(seq![nothing].drop_last() =~= Seq::empty());
    assert(named_pieces(seq![nothing].drop_last()) =~= Seq::empty());
    assert(named_pieces(seq![nothing]) =~= Seq::empty());
    lemma_last_component(pieces(path + slash, '/'));
    // a dot behind it
    let dot = seq!['.'];
    assert("."@ =~= dot);
    lemma_pieces_apart(path, '/', dot);
    assert(path + slash + dot =~= path + seq!['/', '.']);
    lemma_named_pieces(pieces(path, '/'), seq![dot]);
    assert(seq![dot].drop_last() =~= Seq::empty());
    assert(named_pieces(seq![dot]) =~= Seq::empty());
    lemma_last_component(pieces(path + seq!['/', '.'], '/'));
    // the parent directory
    let dots = seq!['.', '.'];
    assert(".."@ =~= dots);
    lemma_pieces_apart(dir, '/', dots);
    assert(dir + slash + dots =~= dir + seq!['/', '.', '.']);
    assert(pieces(dots, '/') =~= seq![dots]);
    assert((pieces(dir, '/') + seq![dots]).last() == dots);
}

/// Components hold no slash, but for the root.
proof fn lemma_named_pieces_hold_no_slash(parts: Seq<Seq<char>>)
    requires
        forall|i: int| 0 <= i < parts.len() ==> !(#[trigger] parts[i]).contains('/'),
    ensures
        forall|i: int|
            0 <= i < named_pieces(parts).len() ==> !(#[trigger] named_pieces(parts)[i]).contains(
                '/',
            ),
    decreases parts.len(),
{
    if parts.len() > 0 {
        let most = parts.drop_last();
        assert forall|i: int| 0 <= i < most.len() implies !(#[trigger] most[i]).contains('/') by {
            assert(most[i] == parts[i]);
        }
        lemma_named_pieces_hold_no_slash(most);
        let last = parts[parts.len() - 1];
        let less = named_pieces(most);
        let all = named_pieces(parts);
        assert(!last.contains('/'));
        assert(all == less || all == less.push(last));
        assert forall|i: int| 0 <= i < all.len() implies !(#[trigger] all[i]).contains('/') by {
            if i < less.len() {
                assert(all[i] == less[i]);
            } else {
                assert(all[i] == last);
            }
        }
    } else {
        assert(named_pieces(parts).len() == 0);
    }
}

/// An absolute path is never the same as a relative one.
pub proof fn law_absolute_paths_are_not_relative(a: Seq<char>, b: Seq<char>)
    requires
        a.len() > 0,
        a[0] == '/',
        b.len() == 0 || b[0] != '/',
    ensures
        components(a) != components(b),
{
    reveal_strlit("/");
    reveal_strlit(".");
    assert forall|i: int| 0 <= i < pieces(b, '/').len() implies !(#[trigger] pieces(
        b,
        '/',
    )[i]).contains('/') by {
        lemma_pieces_are_free(b, '/', i);
    }
    lemma_named_pieces_hold_no_slash(pieces(b, '/'));
    assert(components(a)[0] == "/"@);
    assert("/"@[0] == '/');
    assert("/"@.contains('/'));
    if components(a) == components(b) {
        let first = components(b)[0];
        if pieces(b, '/')[0] == "."@ {
            assert(first == "."@);
            assert("."@[0] == '.');
        } else {
            assert(first == named_pieces(pieces(b, '/'))[0]);
        }
    }
}

/// The parent directory is a component like a name, and the current directory is
/// one only at the start.
pub proof fn law_parent_directory_is_a_component(dir: Seq<char>, name: Seq<char>)
    requires
        plain_name(name),
        dir.len() > 0,
    ensures
        components(dir + seq!['/', '.', '.']) == components(dir).push(".."@),
        components(dir + seq!['/', '.', '.', '/'] + name) == components(dir).push(".."@).push(name),
        components(seq!['.', '/'] + name) == seq!["."@, name],
        components(seq!['.', '.', '/'] + name) == seq![".."@, name],
{
    reveal_strlit(".");
    reveal_strlit("..");
    let dots = seq!['.', '.'];
    let dot = seq!['.'];
    let slash = seq!['/'];
    assert(".."@ =~= dots);
    assert("."@ =~= dot);
    assert(!dots.contains('/'));
    assert(!dot.contains('/'));
    lemma_plain_name(name);
    assert(pieces(dots, '/') =~= seq![dots]);
    assert(seq![dots].drop_last() =~= Seq::empty());
    assert(named_pieces(seq![dots].drop_last()) =~= Seq::empty());
    assert(named_pieces(seq![dots]) =~= seq![dots]);
    lemma_components_go_on(dir, dots);
    assert(dir + slash + dots =~= dir + seq!['/', '.', '.']);
    assert(components(dir) + seq![dots] =~= components(dir).push(".."@));
    let up = dir + seq!['/', '.', '.'];
    lemma_components_go_on(up, name);
    assert(up + slash + name =~= dir + seq!['/', '.', '.', '/'] + name);
    assert(components(up) + seq![name] =~= components(up).push(name));
    lemma_components_go_on(dot, name);
    assert(dot + slash + name =~= seq!['.', '/'] + name);
    assert(pieces(dot, '/') =~= seq![dot]);
    assert(seq![dot].drop_last() =~= Seq::empty());
    assert(named_pieces(seq![dot].drop_last()) =~= Seq::empty());
    assert(named_pieces(seq![dot]) =~= Seq::empty());
    assert(components(dot) =~= seq!["."@]);
    assert(components(dot) + seq![name] =~= seq!["."@, name]);
    lemma_components_go_on(dots, name);
    assert(dots + slash + name =~= seq!['.', '.', '/'] + name);
    assert(dots[0] != '/');
    assert(dots.len() != dot.len());
    assert(components(dots) =~= seq![".."@]);
    assert(components(dots) + seq![name] =~= seq![".."@, name]);
}

} // verus!
