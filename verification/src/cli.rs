//! Command-line arguments: which value is the query and which are paths.

use vstd::prelude::*;

verus! {

broadcast use vstd::string::group_string_axioms;

/// Why the arguments name no query.
#[derive(Clone, Copy, Debug, PartialEq, Eq, Structural)]
pub enum CliError {
    NoQuery,
}

impl CliError {
    pub fn message(&self) -> (m: String)
        ensures
            m@ == "provide a query or --query-file"@,
    {
        String::from_str("provide a query or --query-file")
    }
}

/// The characters of each string.
pub open spec fn texts(v: Seq<String>) -> Seq<Seq<char>> {
    v.map_values(|s: String| s@)
}

/// The paths to search: the ones given, or the current directory when none is.
pub open spec fn paths_or_current(paths: Seq<Seq<char>>) -> Seq<Seq<char>> {
    if paths.len() == 0 {
        seq!["."@]
    } else {
        paths
    }
}

/// Copies `inputs[from..]`, or gives `.` when that is empty.
fn paths_from(inputs: &Vec<String>, from: usize) -> (paths: Vec<String>)
    requires
        from <= inputs@.len(),
    ensures
        texts(paths@) == paths_or_current(texts(inputs@).skip(from as int)),
{
    let mut paths: Vec<String> = Vec::new();
    let mut i = from;
    while i < inputs.len()
        invariant
            from <= i <= inputs@.len(),
            texts(paths@) == texts(inputs@).subrange(from as int, i as int),
        decreases inputs.len() - i,
    {
        let ghost before = paths@;
        let item = inputs[i].clone();
        assert(item@ == inputs@[i as int]@);
        paths.push(item);
        assert(paths@ == before.push(item));
        assert(texts(paths@) =~= texts(before).push(item@));
        assert(texts(paths@) =~= texts(inputs@).subrange(from as int, i + 1));
        i = i + 1;
    }
    assert(texts(inputs@).subrange(from as int, inputs@.len() as int) == texts(inputs@).skip(
        from as int,
    ));
    if paths.len() == 0 {
        paths.push(String::from_str("."));
        assert(texts(paths@) =~= seq!["."@]);
    }
    paths
}

/// With a query file, every value is a path; otherwise the first value is the query and the rest are paths.
/// Without paths, the search covers the current directory. Returns the query given inline, if any, and the
/// paths.
pub fn split_arguments(inputs: &Vec<String>, has_query_file: bool) -> (r: Result<
    (Option<String>, Vec<String>),
    CliError,
>)
    ensures
        has_query_file ==> (r matches Ok((query, paths)) && query is None && texts(paths@)
            == paths_or_current(texts(inputs@))),
        !has_query_file && inputs@.len() == 0 ==> r == Err::<(Option<String>, Vec<String>), CliError>(
            CliError::NoQuery,
        ),
        !has_query_file && inputs@.len() > 0 ==> (r matches Ok((query, paths)) && query matches Some(
            q,
        ) && q@ == inputs@[0]@ && texts(paths@) == paths_or_current(texts(inputs@).skip(1))),
{
    if has_query_file {
        let paths = paths_from(inputs, 0);
        assert(texts(inputs@).skip(0) == texts(inputs@));
        return Ok((None, paths));
    }
    if inputs.len() == 0 {
        return Err(CliError::NoQuery);
    }
    let query = inputs[0].clone();
    Ok((Some(query), paths_from(inputs, 1)))
}

} // verus!
