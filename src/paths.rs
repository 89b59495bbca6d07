use vstd::prelude::*;

verus! {

/// The path `base` extended by `name`, as `std::path::Path::join` forms it.
pub uninterp spec fn joined(base: Seq<char>, name: Seq<char>) -> Seq<char>;

/// The final component of a path, as `std::path::Path::file_name` finds it.
pub uninterp spec fn final_component(p: Seq<char>) -> Option<Seq<char>>;

/// The path without its final component, as `std::path::Path::parent` finds it.
pub uninterp spec fn parent_of(p: Seq<char>) -> Option<Seq<char>>;

/// Relies on `std::path::Path::join`: the result depends on the two texts alone.
#[verifier::external_body]
pub(crate) fn join_path(base: &str, name: &str) -> (r: String)
    ensures
        r@ == joined(base@, name@),
{
    std::path::Path::new(base).join(name).to_string_lossy().into_owned()
}

/// Relies on `std::path::Path::file_name`: the result depends on the text alone.
#[verifier::external_body]
pub(crate) fn file_name_of(p: &str) -> (r: Option<String>)
    ensures
        r is Some <==> final_component(p@) is Some,
        r is Some ==> r->Some_0@ == final_component(p@)->Some_0,
{
    std::path::Path::new(p).file_name().map(|n| n.to_string_lossy().into_owned())
}

/// Relies on `std::path::Path::parent`: the result depends on the text alone.
#[verifier::external_body]
pub(crate) fn parent_dir(p: &str) -> (r: Option<String>)
    ensures
        r is Some <==> parent_of(p@) is Some,
        r is Some ==> r->Some_0@ == parent_of(p@)->Some_0,
{
    std::path::Path::new(p).parent().map(|d| d.to_string_lossy().into_owned())
}

} // verus!
