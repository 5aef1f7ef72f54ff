//! What the command line hands over as lists of words.

use vstd::prelude::*;
use crate::environment::{put_pair, no_pairs, Mount, MountView};
use crate::failure::{failure, outcome, Failure, Messages};
use crate::model::Text;
use crate::text;
use crate::text::{cat2, cat3, put, same, split_once, Dup};

verus! {

/// The mounts from position `from` on, put behind `done`: each is read-only or not by its mode.
pub open spec fn mounts_from(
    sources: Seq<Text>,
    destinations: Seq<Text>,
    modes: Seq<Text>,
    from: int,
    done: Seq<MountView>,
) -> Result<Seq<MountView>, Messages>
    decreases sources.len() - from,
{
    if from >= sources.len() {
        Ok(done)
    } else if modes[from] != "ro"@ && modes[from] != "rw"@ {
        Err(seq!["unsupported mount mode "@ + modes[from]])
    } else {
        mounts_from(
            sources,
            destinations,
            modes,
            from + 1,
            done.push(
                MountView {
                    source: sources[from],
                    destination: destinations[from],
                    read_only: modes[from] == "ro"@,
                },
            ),
        )
    }
}

/// The mounts that three lists of equal length describe.
pub open spec fn mounts_named(
    sources: Seq<Text>,
    destinations: Seq<Text>,
    modes: Seq<Text>,
) -> Result<Seq<MountView>, Messages> {
    if sources.len() != destinations.len() || sources.len() != modes.len() {
        Err(seq!["internal-run mount arguments must have matching counts"@])
    } else {
        mounts_from(sources, destinations, modes, 0, Seq::empty())
    }
}

pub fn parse_mount_arguments(
    sources: &Vec<String>,
    destinations: &Vec<String>,
    modes: &Vec<String>,
) -> (result: Result<Vec<Mount>, Failure>)
    ensures
        outcome(result) == mounts_named(
            sources.deep_view(),
            destinations.deep_view(),
            modes.deep_view(),
        ),
{
    assert(sources.deep_view().len() == sources.len());
    assert(destinations.deep_view().len() == destinations.len());
    assert(modes.deep_view().len() == modes.len());
    if sources.len() != destinations.len() || sources.len() != modes.len() {
        return Err(
            failure("internal-run mount arguments must have matching counts".to_owned()),
        );
    }
    let mut mounts: Vec<Mount> = Vec::new();
    assert(mounts.deep_view() == Seq::<MountView>::empty());
    let mut from: usize = 0;
    while from < sources.len()
        invariant
            from <= sources.len(),
            sources.len() == destinations.len(),
            sources.len() == modes.len(),
            mounts_named(sources.deep_view(), destinations.deep_view(), modes.deep_view())
                == mounts_from(
                sources.deep_view(),
                destinations.deep_view(),
                modes.deep_view(),
                from as int,
                mounts.deep_view(),
            ),
        decreases sources.len() - from,
    {
        assert(sources.deep_view()[from as int] == sources[from as int]@);
        assert(destinations.deep_view()[from as int] == destinations[from as int]@);
        assert(modes.deep_view()[from as int] == modes[from as int]@);
        let read_only = same(&modes[from], "ro");
        if !read_only && !same(&modes[from], "rw") {
            return Err(failure(cat2("unsupported mount mode ", &modes[from])));
        }
        put(
            &mut mounts,
            Mount {
                source: sources[from].dup(),
                destination: destinations[from].dup(),
                read_only,
            },
        );
        from = from + 1;
    }
    Ok(mounts)
}

/// The variables from position `from` on, put behind `done`: each is `<name>=<value>`.
pub open spec fn variables_from(entries: Seq<Text>, from: int, done: Seq<(Text, Text)>) -> Result<
    Seq<(Text, Text)>,
    Messages,
>
    decreases entries.len() - from,
{
    if from >= entries.len() {
        Ok(done)
    } else {
        match text::parted(entries[from], '=') {
            None => Err(seq!["invalid --env '"@ + entries[from] + "'"@]),
            Some(pair) => variables_from(entries, from + 1, done.push(pair)),
        }
    }
}

pub fn parse_environment_arguments(entries: &Vec<String>) -> (result: Result<
    Vec<(String, String)>,
    Failure,
>)
    ensures
        outcome(result) == variables_from(entries.deep_view(), 0, Seq::empty()),
{
    let mut variables = no_pairs();
    let mut from: usize = 0;
    while from < entries.len()
        invariant
            from <= entries.len(),
            variables_from(entries.deep_view(), 0, Seq::empty()) == variables_from(
                entries.deep_view(),
                from as int,
                variables.deep_view(),
            ),
        decreases entries.len() - from,
    {
        assert(entries.deep_view()[from as int] == entries[from as int]@);
        match split_once(&entries[from], '=') {
            None => {
                return Err(failure(cat3("invalid --env '", &entries[from], "'")));
            },
            Some((name, value)) => {
                put_pair(&mut variables, &name, &value);
            },
        }
        from = from + 1;
    }
    Ok(variables)
}

} // verus!
