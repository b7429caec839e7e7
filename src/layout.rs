//! Where images, deltas and settings live under the store directory.
use vstd::prelude::*;

verus! {

broadcast use vstd::string::group_string_axioms;

/// `a/b`.
pub open spec fn joined(a: Seq<char>, b: Seq<char>) -> Seq<char> {
    a + seq!['/'] + b
}

/// `<store>/sys/<name>`: the image's root directory.
pub open spec fn image_dir_of(store: Seq<char>, name: Seq<char>) -> Seq<char> {
    joined(joined(store, "sys"@), name)
}

/// `<store>/delta/<uid>/<name>`: the delta layer of one user over one image.
pub open spec fn delta_dir_of(store: Seq<char>, uid: Seq<char>, name: Seq<char>) -> Seq<char> {
    joined(joined(joined(store, "delta"@), uid), name)
}

/// Joins two path pieces with a `/`.
pub fn join(a: &str, b: &str) -> (r: String)
    ensures
        r@ == joined(a@, b@),
{
    proof {
        reveal_strlit("/");
    }
    let mut s = String::from_str(a);
    s.append("/");
    s.append(b);
    s
}

/// The root directory of the image `name`.
pub fn image_dir(store: &str, name: &str) -> (r: String)
    ensures
        r@ == image_dir_of(store@, name@),
{
    let s = join(store, "sys");
    join(s.as_str(), name)
}

/// The delta layer of user `uid` over image `name`.
pub fn delta_dir(store: &str, uid: &str, name: &str) -> (r: String)
    ensures
        r@ == delta_dir_of(store@, uid@, name@),
{
    let s = join(store, "delta");
    let s = join(s.as_str(), uid);
    join(s.as_str(), name)
}

/// `<store>/profiles`: where profile records are kept.
pub fn profiles_dir(store: &str) -> (r: String)
    ensures
        r@ == joined(store@, "profiles"@),
{
    join(store, "profiles")
}

/// `<store>/current-profile`: the current-profile pointer.
pub fn current_profile_file(store: &str) -> (r: String)
    ensures
        r@ == joined(store@, "current-profile"@),
{
    join(store, "current-profile")
}

/// `<store>/profiles/<name>.toml`: the record of one profile.
pub fn profile_path(store: &str, name: &str) -> (r: String)
    ensures
        r@ == joined(joined(store@, "profiles"@), name@ + ".toml"@),
{
    let dir = profiles_dir(store);
    let mut file = String::from_str(name);
    file.append(".toml");
    join(dir.as_str(), file.as_str())
}

} // verus!
