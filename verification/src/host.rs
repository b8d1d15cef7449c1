//! Where things are on the host: programs on the search path, and the cache.
use vstd::prelude::*;
use vstd::string::StringExecFns;

use crate::text::{Text, begins, chars_of, finishes, opt_text, pieces, split_char, texts};

verus! {

/// The path of a name in a directory.
pub open spec fn in_dir(dir: Text, name: Text) -> Text {
    if dir.len() == 0 {
        name
    } else if dir.last() == '/' {
        dir + name
    } else {
        dir + "/"@ + name
    }
}

/// The path of a relative name in a directory.
pub fn path_in(dir: &str, name: &str) -> (s: String)
    ensures
        s@ == in_dir(dir@, name@),
{
    let d = chars_of(dir);
    if d.len() == 0 {
        name.to_owned()
    } else if d[d.len() - 1] == '/' {
        dir.to_owned().concat(name)
    } else {
        dir.to_owned().concat("/").concat(name)
    }
}

/// The places at which a program may be, along a search path: one in each of its directories.
pub fn candidates(path: &str, bin: &str) -> (v: Vec<String>)
    ensures
        texts(v@) == pieces(path@, ':').map_values(|d: Text| in_dir(d, bin@)),
{
    let dirs = split_char(path, ':');
    let ghost all = pieces(path@, ':').map_values(|d: Text| in_dir(d, bin@));
    let mut v: Vec<String> = Vec::new();
    let mut i: usize = 0;
    while i < dirs.len()
        invariant
            i <= dirs@.len(),
            texts(dirs@) == pieces(path@, ':'),
            all == pieces(path@, ':').map_values(|d: Text| in_dir(d, bin@)),
            texts(v@) == all.take(i as int),
        decreases dirs@.len() - i,
    {
        let ghost before = v@;
        let p = path_in(dirs[i].as_str(), bin);
        assert(texts(dirs@)[i as int] == dirs@[i as int]@);
        v.push(p);
        assert(texts(v@) =~= texts(before).push(p@));
        assert(all.take(i + 1) =~= all.take(i as int).push(p@));
        i += 1;
    }
    assert(all.take(dirs@.len() as int) =~= all);
    v
}

/// The base of the cache: the one that is set, else the one in the home directory.
pub open spec fn cache_base(xdg: Option<Text>, home: Text) -> Text {
    match xdg {
        Some(x) => x,
        None => home + "/.cache"@,
    }
}

/// The base of the cache: the one that is set, else the one in the home directory.
pub fn cache_root(xdg: Option<String>, home: &str) -> (s: String)
    ensures
        s@ == cache_base(opt_text(xdg), home@),
{
    match xdg {
        Some(x) => x,
        None => home.to_owned().concat("/.cache"),
    }
}

/// A path in a directory ends in the name, and exactly one stroke parts the two; where the directory
/// is empty the name stands alone.
pub proof fn law_a_path_ends_in_its_name(dir: Text, name: Text)
    ensures
        finishes(in_dir(dir, name), name),
        begins(in_dir(dir, name), dir),
        dir.len() == 0 ==> in_dir(dir, name) == name,
        dir.len() > 0 && dir.last() == '/' ==> in_dir(dir, name) == dir + name,
        dir.len() > 0 && dir.last() != '/' ==> in_dir(dir, name) == dir + seq!['/'] + name,
{
    reveal_strlit("/");
    assert("/"@ =~= seq!['/']);
    let s = in_dir(dir, name);
    assert(s.skip(s.len() - name.len()) =~= name);
    assert(s.take(dir.len() as int) =~= dir);
}

/// The cache is where it is set to be, and in the home directory where it is not set.
pub proof fn law_the_cache(set: Text, home: Text)
    ensures
        cache_base(Some(set), home) == set,
        cache_base(None, home) == home + "/.cache"@,
{
}

} // verus!
