//! Paths, as texts.

use vstd::prelude::*;

use crate::text::{
    cat2, cat3, ends, ends_with, opt_text, owned, pieces, same, split, starts_with_char, texts, Text,
};

verus! {

/// A path below a directory; an absolute one stays what it is.
pub open spec fn below(dir: Text, path: Text) -> Text {
    if path.len() > 0 && path[0] == '/' {
        path
    } else if dir.len() == 0 || dir.last() == '/' {
        dir + path
    } else {
        dir + "/"@ + path
    }
}

/// A path below a directory; an absolute one stays what it is.
pub fn path_below(dir: &str, path: &str) -> (r: String)
    ensures
        r@ == below(dir@, path@),
{
    let absolute = starts_with_char(path, '/');
    if absolute {
        return owned(path);
    }
    proof {
        reveal_strlit("");
        reveal_strlit("/");
        assert(dir@.len() == 0 ==> dir@ =~= ""@);
        assert("/"@ =~= seq!['/']);
        if ends(dir@, "/"@) {
            assert(dir@.skip(dir@.len() - 1)[0] == dir@.last());
        } else if dir@.len() > 0 && dir@.last() == '/' {
            assert(dir@.skip(dir@.len() - 1) =~= "/"@);
        }
    }
    if same(dir, "") || ends_with(dir, "/") {
        cat2(dir, path)
    } else {
        cat3(dir, "/", path)
    }
}

/// The last name among the components of a path; none where the path ends in
/// its parent.
pub open spec fn last_name(v: Seq<Text>) -> Option<Text>
    decreases v.len(),
{
    if v.len() == 0 {
        None
    } else if v.last().len() == 0 || v.last() == "."@ {
        last_name(v.drop_last())
    } else if v.last() == ".."@ {
        None
    } else {
        Some(v.last())
    }
}

/// The last component of a path; none where it ends in its parent.
pub open spec fn file_name_of(path: Text) -> Option<Text> {
    last_name(pieces(path, '/'))
}

/// The last component of a path; none where it ends in its parent.
pub fn file_name(path: &str) -> (r: Option<String>)
    ensures
        opt_text(r) == file_name_of(path@),
{
    let v = split(path, '/');
    let ghost all = texts(v@);
    let mut i: usize = v.len();
    assert(all.take(i as int) =~= all);
    while i > 0
        invariant
            i <= v.len(),
            all == texts(v@),
            all == pieces(path@, '/'),
            last_name(all) == last_name(all.take(i as int)),
        decreases i,
    {
        let x = v[i - 1].as_str();
        let ghost upto = all.take(i as int);
        proof {
            assert(upto.last() == x@);
            assert(upto.drop_last() =~= all.take(i - 1));
            reveal_strlit("");
            assert(x@.len() == 0 ==> x@ =~= ""@);
        }
        if !same(x, "") && !same(x, ".") {
            if same(x, "..") {
                return None;
            }
            return Some(owned(x));
        }
        i = i - 1;
    }
    None
}

/// A relative path is put behind the directory and a `/`; an absolute one stays.
pub proof fn relative_paths_are_below(dir: Text, path: Text)
    ensures
        path.len() > 0 && path[0] == '/' ==> below(dir, path) == path,
        (path.len() == 0 || path[0] != '/') && dir.len() > 0 && dir.last() != '/' ==> below(
            dir,
            path,
        ) == dir + seq!['/'] + path,
        path.len() == 0 || path[0] != '/' ==> below(dir + seq!['/'], path) == dir + seq!['/'] + path,
{
    reveal_strlit("/");
    assert("/"@ =~= seq!['/']);
}

/// The file name of a path below a directory is the path, where it is a single
/// name.
pub proof fn last_component_is_the_file_name(before: Seq<Text>, name: Text)
    requires
        name.len() > 0,
        name != "."@,
        name != ".."@,
    ensures
        last_name(before.push(name)) == Some(name),
        last_name(before.push(seq![])) == last_name(before),
        last_name(before.push("."@)) == last_name(before),
        last_name(before.push(".."@)) is None,
{
    reveal_strlit(".");
    reveal_strlit("..");
    assert("."@ =~= seq!['.']);
    assert(".."@ =~= seq!['.', '.']);
    assert(before.push(name).drop_last() =~= before);
    assert(before.push(seq![]).drop_last() =~= before);
    assert(before.push("."@).drop_last() =~= before);
    assert(before.push(".."@).drop_last() =~= before);
}

} // verus!
