//! Manifests: the packages that a project requires, one request per line.

use vstd::prelude::*;
use crate::failure;
use crate::failure::{at, failure, outcome, within, Failure, Messages};
use crate::grammar;
use crate::model::{
    PackageRequest, PackageRequestView, RequestMode, RequestModeView, RequestSource, Text,
    DEFAULT_NAMESPACE,
};
use crate::names;
use crate::names::{ensure_alias_name, ensure_namespace_name, ensure_package_name, significant_lines};
use crate::text;
use crate::text::{cat2, cat3, cat4, ends_with, put, same, slice, starts_with};
use crate::tokens;
use crate::tokens::tokenize_arguments;

verus! {

/// What is said of an option without its value.
pub open spec fn lacks_value(option: Text) -> Result<PackageRequestView, Messages> {
    Err(seq![option + " requires a value"@])
}

/// `request` with the options in `tokens` from position `from` on applied to it.
pub open spec fn request_options(
    path: Text,
    line: nat,
    tokens: Seq<Text>,
    from: int,
    request: PackageRequestView,
) -> Result<PackageRequestView, Messages>
    decreases tokens.len() - from,
{
    if from >= tokens.len() {
        Ok(request)
    } else if tokens[from] == "NAMESPACE"@ {
        if from + 1 >= tokens.len() {
            lacks_value(tokens[from])
        } else {
            match names::namespace_check(tokens[from + 1]) {
                Err(messages) => Err(messages),
                Ok(_) => request_options(
                    path,
                    line,
                    tokens,
                    from + 2,
                    PackageRequestView { namespace: tokens[from + 1], ..request },
                ),
            }
        }
    } else if tokens[from] == "VERSION"@ {
        if from + 1 >= tokens.len() {
            lacks_value(tokens[from])
        } else {
            request_options(
                path,
                line,
                tokens,
                from + 2,
                PackageRequestView { mode: RequestModeView::Exact(tokens[from + 1]), ..request },
            )
        }
    } else if tokens[from] == "MIN_VERSION"@ {
        if from + 1 >= tokens.len() {
            lacks_value(tokens[from])
        } else {
            request_options(
                path,
                line,
                tokens,
                from + 2,
                PackageRequestView { mode: RequestModeView::Minimum(tokens[from + 1]), ..request },
            )
        }
    } else if tokens[from] == "SOURCE"@ {
        if from + 1 >= tokens.len() {
            lacks_value(tokens[from])
        } else {
            match RequestSource::read(tokens[from + 1]) {
                Err(messages) => Err(messages),
                Ok(source) => request_options(
                    path,
                    line,
                    tokens,
                    from + 2,
                    PackageRequestView { source, ..request },
                ),
            }
        }
    } else if tokens[from] == "AS"@ {
        if from + 1 >= tokens.len() {
            lacks_value(tokens[from])
        } else {
            match names::alias_check(tokens[from + 1]) {
                Err(messages) => Err(messages),
                Ok(_) => request_options(
                    path,
                    line,
                    tokens,
                    from + 2,
                    PackageRequestView { alias: Some(tokens[from + 1]), ..request },
                ),
            }
        }
    } else {
        Err(
            seq![
                "unsupported manifest token '"@ + tokens[from] + "' at "@ + failure::place(
                    path,
                    line,
                ),
            ],
        )
    }
}

fn parse_request_options(
    path: &str,
    line_number: usize,
    tokens: &Vec<String>,
    start: PackageRequest,
) -> (result: Result<PackageRequest, Failure>)
    requires
        tokens.len() >= 1,
    ensures
        outcome(result) == request_options(
            path@,
            line_number as nat,
            tokens.deep_view(),
            1,
            start.deep_view(),
        ),
{
    let mut request = start;
    let mut index: usize = 1;
    while index < tokens.len()
        invariant
            1 <= index <= tokens.len(),
            request_options(path@, line_number as nat, tokens.deep_view(), 1, start.deep_view())
                == request_options(
                path@,
                line_number as nat,
                tokens.deep_view(),
                index as int,
                request.deep_view(),
            ),
        decreases tokens.len() - index,
    {
        let key: &str = tokens[index].as_str();
        assert(tokens.deep_view()[index as int] == key@);
        let known = same(key, "NAMESPACE") || same(key, "VERSION") || same(key, "MIN_VERSION")
            || same(key, "SOURCE") || same(key, "AS");
        if !known {
            return Err(
                failure(
                    cat4("unsupported manifest token '", key, "' at ", &at(path, line_number)),
                ),
            );
        }
        if index + 1 >= tokens.len() {
            return Err(failure(cat2(key, " requires a value")));
        }
        let value: &str = tokens[index + 1].as_str();
        if same(key, "NAMESPACE") {
            ensure_namespace_name(value)?;
            request = PackageRequest { namespace: value.to_owned(), ..request };
        } else if same(key, "VERSION") {
            request = PackageRequest { mode: RequestMode::Exact(value.to_owned()), ..request };
        } else if same(key, "MIN_VERSION") {
            request = PackageRequest { mode: RequestMode::Minimum(value.to_owned()), ..request };
        } else if same(key, "SOURCE") {
            let source = RequestSource::parse(value)?;
            request = PackageRequest { source, ..request };
        } else {
            ensure_alias_name(value)?;
            request = PackageRequest { alias: Some(value.to_owned()), ..request };
        }
        index = index + 2;
    }
    Ok(request)
}

/// The request that one line makes.
pub open spec fn line_request(path: Text, line: nat, text: Text) -> Result<
    PackageRequestView,
    Messages,
> {
    if !text::has_prefix(text, "depos_require("@) || !text::has_suffix(text, ")"@) {
        Err(seq!["unsupported manifest syntax at "@ + failure::place(path, line) + ": "@ + text])
    } else {
        match tokens::tokens_of(
            text.subrange("depos_require("@.len() as int, text.len() - 1),
        ) {
            Err(messages) => Err(
                seq!["invalid manifest syntax at "@ + failure::place(path, line)] + messages,
            ),
            Ok(tokens) => if tokens.len() == 0 {
                Err(seq!["manifest request at "@ + failure::place(path, line) + " is empty"@])
            } else {
                match names::package_name_check(tokens[0]) {
                    Err(messages) => Err(messages),
                    Ok(_) => request_options(
                        path,
                        line,
                        tokens,
                        1,
                        grammar::plain_request(tokens[0], DEFAULT_NAMESPACE@, false),
                    ),
                }
            },
        }
    }
}

fn parse_line(path: &str, line_number: usize, line: &str) -> (result: Result<
    PackageRequest,
    Failure,
>)
    ensures
        outcome(result) == line_request(path@, line_number as nat, line@),
{
    if !starts_with(line, "depos_require(") || !ends_with(line, ")") {
        return Err(
            failure(
                cat4("unsupported manifest syntax at ", &at(path, line_number), ": ", line),
            ),
        );
    }
    proof {
        reveal_strlit("depos_require(");
        reveal_strlit(")");
        assert("depos_require("@.len() == 14);
        assert(")"@.len() == 1);
        assert("depos_require("@[13] == '(' && ")"@[0] == ')');
        if line@.len() == 14 {
            assert(line@.subrange(0, 14)[13] == line@.subrange(13, 14)[0]);
        }
    }
    let inner = slice(line, "depos_require(".unicode_len(), line.unicode_len() - 1);
    let tokens = match tokenize_arguments(&inner) {
        Ok(tokens) => tokens,
        Err(inner) => {
            return Err(within(cat2("invalid manifest syntax at ", &at(path, line_number)), inner));
        },
    };
    if tokens.len() == 0 {
        return Err(
            failure(cat3("manifest request at ", &at(path, line_number), " is empty")),
        );
    }
    ensure_package_name(&tokens[0])?;
    let request = PackageRequest {
        name: tokens[0].clone(),
        namespace: DEFAULT_NAMESPACE.to_owned(),
        inherit_namespace: false,
        mode: RequestMode::Latest,
        source: RequestSource::Auto,
        alias: None,
    };
    parse_request_options(path, line_number, &tokens, request)
}

/// The requests of the significant lines from position `from` on, put behind `done`.
pub open spec fn requests_from(
    path: Text,
    lines: Seq<(usize, Text)>,
    from: int,
    done: Seq<PackageRequestView>,
) -> Result<Seq<PackageRequestView>, Messages>
    decreases lines.len() - from,
{
    if from >= lines.len() {
        Ok(done)
    } else {
        match line_request(path, lines[from].0 as nat, lines[from].1) {
            Err(messages) => Err(messages),
            Ok(request) => requests_from(path, lines, from + 1, done.push(request)),
        }
    }
}

/// The requests of a manifest, in order.
pub open spec fn manifest_requests(path: Text, source: Text) -> Result<
    Seq<PackageRequestView>,
    Messages,
> {
    requests_from(path, names::significant(source), 0, Seq::empty())
}

/// Parses the manifest at `path`, whose contents are `source`.
pub fn parse_manifest(path: &str, source: &str) -> (result: Result<Vec<PackageRequest>, Failure>)
    ensures
        outcome(result) == manifest_requests(path@, source@),
{
    let lines = significant_lines(source);
    let mut requests: Vec<PackageRequest> = Vec::new();
    let mut index: usize = 0;
    assert(requests.deep_view() == Seq::<PackageRequestView>::empty());
    while index < lines.len()
        invariant
            index <= lines.len(),
            manifest_requests(path@, source@) == requests_from(
                path@,
                lines.deep_view(),
                index as int,
                requests.deep_view(),
            ),
        decreases lines.len() - index,
    {
        assert(lines.deep_view()[index as int] == lines[index as int].deep_view());
        let request = parse_line(path, lines[index].0, &lines[index].1)?;
        put(&mut requests, request);
        index = index + 1;
    }
    Ok(requests)
}

} // verus!
