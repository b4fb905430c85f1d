//! The command model: the two supported operations, their typed argument
//! records, the error kinds of the whole command surface, and the parsing
//! of raw argument values into a command. Parsing is total and synchronous:
//! it performs no I/O, and a missing or empty argument is reported, by
//! name, before anything else runs.

use vstd::prelude::*;
use vstd::string::StringExecFns;
use crate::order::str_eq_exec;

verus! {

/// The arguments of the "describe one source" operation, all required and
/// non-empty.
#[derive(Debug, PartialEq, Eq)]
pub struct DescribeSourceArgs {
    pub metastore_uri: String,
    pub index_id: String,
    pub source_id: String,
}

/// The arguments of the "list all sources" operation, all required and
/// non-empty.
#[derive(Debug, PartialEq, Eq)]
pub struct ListSourcesArgs {
    pub metastore_uri: String,
    pub index_id: String,
}

/// One parsed command: exactly one of the two operations.
#[derive(Debug, PartialEq, Eq)]
pub enum SourceCliCommand {
    DescribeSource(DescribeSourceArgs),
    ListSources(ListSourcesArgs),
}

/// Everything that can make an invocation fail. Argument errors carry the
/// offending argument or subcommand name; the other kinds carry the URI or
/// identifier they are about.
#[derive(Debug, PartialEq, Eq)]
pub enum CliError {
    ArgumentError(String),
    MetastoreUnavailable(String),
    IndexNotFound(String),
    SourceNotFound(String),
}

impl CliError {
    /// The message shown for this error, naming what it is about.
    pub fn message(&self) -> (m: String)
        ensures
            match self {
                CliError::ArgumentError(a) => m@ == "invalid or missing argument `"@ + a@ + "`."@,
                CliError::MetastoreUnavailable(u) => m@ == "failed to resolve metastore URI `"@
                    + u@ + "`."@,
                CliError::IndexNotFound(id) => m@ == "Index `"@ + id@ + "` does not exist."@,
                CliError::SourceNotFound(id) => m@ == "Source `"@ + id@ + "` does not exist."@,
            },
    {
        match self {
            CliError::ArgumentError(a) => {
                let mut m = "invalid or missing argument `".to_owned();
                m.append(a.as_str());
                m.append("`.");
                m
            },
            CliError::MetastoreUnavailable(u) => {
                let mut m = "failed to resolve metastore URI `".to_owned();
                m.append(u.as_str());
                m.append("`.");
                m
            },
            CliError::IndexNotFound(id) => {
                let mut m = "Index `".to_owned();
                m.append(id.as_str());
                m.append("` does not exist.");
                m
            },
            CliError::SourceNotFound(id) => {
                let mut m = "Source `".to_owned();
                m.append(id.as_str());
                m.append("` does not exist.");
                m
            },
        }
    }
}

/// The position of the first protocol separator "://" in `s`, or -1 when
/// there is none.
pub open spec fn first_sep(s: Seq<char>) -> int
    decreases s.len(),
{
    if s.len() < 3 {
        -1
    } else if s.subrange(0, 3) == "://"@ {
        0
    } else {
        let rest = first_sep(s.drop_first());
        if rest < 0 {
            -1
        } else {
            1 + rest
        }
    }
}

/// The string is scheme-qualified with a scheme other than "file": it has
/// a protocol separator, and what stands before the first one is not
/// "file".
pub open spec fn non_file_scheme(s: Seq<char>) -> bool {
    &&& first_sep(s) >= 0
    &&& s.subrange(0, first_sep(s)) != "file"@
}

/// Relies on quickwit_common::uri::Uri::try_new and Uri::into_string: an
/// empty URI is rejected; an accepted one comes back as `protocol`,
/// `"://"`, `path` joined, hence non-empty and scheme-qualified; and a URI
/// already qualified with a scheme other than "file" is accepted and
/// returned verbatim. A file path is resolved against the home or working
/// directory, so for file URIs only these facts are stated.
#[verifier::external_body]
fn normalize_uri(raw: &str) -> (r: Result<String, String>)
    ensures
        raw@.len() == 0 ==> r is Err,
        r matches Ok(u) ==> u@.len() > 0,
        r matches Ok(u) ==> first_sep(u@) >= 0,
        r is Err ==> !non_file_scheme(raw@),
        r matches Ok(u) ==> (non_file_scheme(raw@) ==> u@ == raw@),
{
    match quickwit_common::uri::Uri::try_new(raw) {
        Ok(uri) => Ok(uri.into_string()),
        Err(err) => Err(err.to_string()),
    }
}

impl SourceCliCommand {
    /// Parses the raw values of a "describe" invocation. An absent or
    /// empty required argument is reported by name, in the order
    /// metastore-uri, index-id, source-id (emptiness of the URI is the
    /// normalizer's to reject); a URI the normalizer rejects is reported
    /// as the metastore-uri argument; with all three arguments present and
    /// the identifiers non-empty, only the normalizer can still refuse,
    /// and a URI qualified with a non-file scheme always succeeds.
    pub fn parse_describe_args(
        metastore_uri: Option<&str>,
        index_id: Option<&str>,
        source_id: Option<&str>,
    ) -> (r: Result<DescribeSourceArgs, CliError>)
        ensures
            metastore_uri is None ==> (r matches Err(CliError::ArgumentError(m)) && m@
                == "metastore-uri"@),
            metastore_uri is Some && index_id is None ==> (r matches Err(
                CliError::ArgumentError(m),
            ) && m@ == "index-id"@),
            metastore_uri is Some && index_id is Some && source_id is None ==> (r matches Err(
                CliError::ArgumentError(m),
            ) && m@ == "source-id"@),
            (metastore_uri is Some && (index_id matches Some(i) && i@.len() == 0) && source_id
                is Some) ==> (r matches Err(CliError::ArgumentError(m)) && m@ == "index-id"@),
            (metastore_uri is Some && (index_id matches Some(i) && i@.len() > 0) && (source_id
            matches Some(s) && s@.len() == 0)) ==> (r matches Err(CliError::ArgumentError(m)) && m@
                == "source-id"@),
            ((metastore_uri matches Some(u) && u@.len() == 0) && (index_id matches Some(i)
                && i@.len() > 0) && (source_id matches Some(s) && s@.len() > 0)) ==> (r matches
            Err(CliError::ArgumentError(m)) && m@ == "metastore-uri"@),
            r matches Ok(a) ==> (metastore_uri is Some && (index_id matches Some(i) && a.index_id@
                == i@ && i@.len() > 0) && (source_id matches Some(s) && a.source_id@ == s@
                && s@.len() > 0) && a.metastore_uri@.len() > 0 && first_sep(a.metastore_uri@)
                >= 0),
            metastore_uri matches Some(u) ==> (non_file_scheme(u@) ==> (r matches Ok(a)
                ==> a.metastore_uri@ == u@)),
            (metastore_uri is Some && (index_id matches Some(i) && i@.len() > 0) && (source_id
            matches Some(s) && s@.len() > 0)) ==> (r is Ok || (r matches Err(
                CliError::ArgumentError(m),
            ) && m@ == "metastore-uri"@)),
            ((metastore_uri matches Some(u) && non_file_scheme(u@)) && (index_id matches Some(i)
                && i@.len() > 0) && (source_id matches Some(s) && s@.len() > 0)) ==> r is Ok,
            r matches Err(e) ==> e is ArgumentError,
    {
        let raw_uri = match metastore_uri {
            None => {
                return Err(CliError::ArgumentError("metastore-uri".to_owned()));
            },
            Some(u) => u,
        };
        let index_id = match index_id {
            None => {
                return Err(CliError::ArgumentError("index-id".to_owned()));
            },
            Some(i) => i,
        };
        let source_id = match source_id {
            None => {
                return Err(CliError::ArgumentError("source-id".to_owned()));
            },
            Some(s) => s,
        };
        if index_id.is_empty() {
            return Err(CliError::ArgumentError("index-id".to_owned()));
        }
        if source_id.is_empty() {
            return Err(CliError::ArgumentError("source-id".to_owned()));
        }
        match normalize_uri(raw_uri) {
            Ok(metastore_uri) => Ok(
                DescribeSourceArgs {
                    metastore_uri,
                    index_id: index_id.to_owned(),
                    source_id: source_id.to_owned(),
                },
            ),
            Err(_reason) => Err(CliError::ArgumentError("metastore-uri".to_owned())),
        }
    }

    /// Parses the raw values of a "list" invocation, reporting absent or
    /// empty arguments by name as the describe form does.
    pub fn parse_list_args(metastore_uri: Option<&str>, index_id: Option<&str>) -> (r: Result<
        ListSourcesArgs,
        CliError,
    >)
        ensures
            metastore_uri is None ==> (r matches Err(CliError::ArgumentError(m)) && m@
                == "metastore-uri"@),
            metastore_uri is Some && index_id is None ==> (r matches Err(
                CliError::ArgumentError(m),
            ) && m@ == "index-id"@),
            (metastore_uri is Some && (index_id matches Some(i) && i@.len() == 0)) ==> (r matches
            Err(CliError::ArgumentError(m)) && m@ == "index-id"@),
            ((metastore_uri matches Some(u) && u@.len() == 0) && (index_id matches Some(i)
                && i@.len() > 0)) ==> (r matches Err(CliError::ArgumentError(m)) && m@
                == "metastore-uri"@),
            r matches Ok(a) ==> (metastore_uri is Some && (index_id matches Some(i) && a.index_id@
                == i@ && i@.len() > 0) && a.metastore_uri@.len() > 0 && first_sep(
                a.metastore_uri@,
            ) >= 0),
            metastore_uri matches Some(u) ==> (non_file_scheme(u@) ==> (r matches Ok(a)
                ==> a.metastore_uri@ == u@)),
            (metastore_uri is Some && (index_id matches Some(i) && i@.len() > 0)) ==> (r is Ok || (
            r matches Err(CliError::ArgumentError(m)) && m@ == "metastore-uri"@)),
            ((metastore_uri matches Some(u) && non_file_scheme(u@)) && (index_id matches Some(i)
                && i@.len() > 0)) ==> r is Ok,
            r matches Err(e) ==> e is ArgumentError,
    {
        let raw_uri = match metastore_uri {
            None => {
                return Err(CliError::ArgumentError("metastore-uri".to_owned()));
            },
            Some(u) => u,
        };
        let index_id = match index_id {
            None => {
                return Err(CliError::ArgumentError("index-id".to_owned()));
            },
            Some(i) => i,
        };
        if index_id.is_empty() {
            return Err(CliError::ArgumentError("index-id".to_owned()));
        }
        match normalize_uri(raw_uri) {
            Ok(metastore_uri) => Ok(
                ListSourcesArgs { metastore_uri, index_id: index_id.to_owned() },
            ),
            Err(_reason) => Err(CliError::ArgumentError("metastore-uri".to_owned())),
        }
    }

    /// Parses a raw subcommand name and its argument values into a
    /// command. An absent or unrecognized subcommand, an absent or empty
    /// required argument, and a rejected URI each give an `ArgumentError`
    /// naming the offender; on a recognized subcommand with every argument
    /// present and non-empty, only the URI normalizer can still refuse,
    /// and a URI qualified with a non-file scheme always succeeds. Nothing
    /// here performs I/O.
    pub fn parse_cli_args(
        subcommand: Option<&str>,
        metastore_uri: Option<&str>,
        index_id: Option<&str>,
        source_id: Option<&str>,
    ) -> (r: Result<SourceCliCommand, CliError>)
        ensures
            subcommand is None ==> (r matches Err(CliError::ArgumentError(m)) && m@
                == "subcommand"@),
            subcommand matches Some(sc) ==> ((sc@ != "describe"@ && sc@ != "list"@) ==> (r matches
            Err(CliError::ArgumentError(m)) && m@ == sc@)),
            r matches Ok(SourceCliCommand::DescribeSource(a)) ==> ((subcommand matches Some(sc)
                && sc@ == "describe"@) && (index_id matches Some(i) && a.index_id@ == i@
                && i@.len() > 0) && (source_id matches Some(d) && a.source_id@ == d@ && d@.len()
                > 0) && a.metastore_uri@.len() > 0 && first_sep(a.metastore_uri@) >= 0),
            r matches Ok(SourceCliCommand::ListSources(a)) ==> ((subcommand matches Some(sc)
                && sc@ == "list"@) && (index_id matches Some(i) && a.index_id@ == i@ && i@.len()
                > 0) && a.metastore_uri@.len() > 0 && first_sep(a.metastore_uri@) >= 0),
            metastore_uri matches Some(u) ==> (non_file_scheme(u@) ==> ((r matches Ok(
                SourceCliCommand::DescribeSource(a),
            ) ==> a.metastore_uri@ == u@) && (r matches Ok(SourceCliCommand::ListSources(b))
                ==> b.metastore_uri@ == u@))),
            (subcommand matches Some(sc) && sc@ == "describe"@) ==> ((metastore_uri is None ==> (r
            matches Err(CliError::ArgumentError(m)) && m@ == "metastore-uri"@)) && (metastore_uri
            is Some && index_id is None ==> (r matches Err(CliError::ArgumentError(m)) && m@
                == "index-id"@)) && (metastore_uri is Some && index_id is Some && source_id
            is None ==> (r matches Err(CliError::ArgumentError(m)) && m@ == "source-id"@)) && ((
            metastore_uri is Some && (index_id matches Some(i) && i@.len() == 0) && source_id
            is Some) ==> (r matches Err(CliError::ArgumentError(m)) && m@ == "index-id"@)) && ((
            metastore_uri is Some && (index_id matches Some(i) && i@.len() > 0) && (source_id
            matches Some(d) && d@.len() == 0)) ==> (r matches Err(CliError::ArgumentError(m)) && m@
                == "source-id"@)) && (((metastore_uri matches Some(u) && u@.len() == 0) && (
            index_id matches Some(i) && i@.len() > 0) && (source_id matches Some(d) && d@.len()
                > 0)) ==> (r matches Err(CliError::ArgumentError(m)) && m@ == "metastore-uri"@))
                && ((metastore_uri is Some && (index_id matches Some(i) && i@.len() > 0) && (
            source_id matches Some(d) && d@.len() > 0)) ==> (r is Ok || (r matches Err(
                CliError::ArgumentError(m),
            ) && m@ == "metastore-uri"@))) && (((metastore_uri matches Some(u) && non_file_scheme(
                u@,
            )) && (index_id matches Some(i) && i@.len() > 0) && (source_id matches Some(d)
                && d@.len() > 0)) ==> r is Ok)),
            (subcommand matches Some(sc) && sc@ == "list"@) ==> ((metastore_uri is None ==> (r
            matches Err(CliError::ArgumentError(m)) && m@ == "metastore-uri"@)) && (metastore_uri
            is Some && index_id is None ==> (r matches Err(CliError::ArgumentError(m)) && m@
                == "index-id"@)) && ((metastore_uri is Some && (index_id matches Some(i)
                && i@.len() == 0)) ==> (r matches Err(CliError::ArgumentError(m)) && m@
                == "index-id"@)) && (((metastore_uri matches Some(u) && u@.len() == 0) && (
            index_id matches Some(i) && i@.len() > 0)) ==> (r matches Err(
                CliError::ArgumentError(m),
            ) && m@ == "metastore-uri"@)) && ((metastore_uri is Some && (index_id matches Some(i)
                && i@.len() > 0)) ==> (r is Ok || (r matches Err(CliError::ArgumentError(m)) && m@
                == "metastore-uri"@))) && (((metastore_uri matches Some(u) && non_file_scheme(u@))
                && (index_id matches Some(i) && i@.len() > 0)) ==> r is Ok)),
            r matches Err(e) ==> e is ArgumentError,
    {
        proof {
            reveal_strlit("describe");
            reveal_strlit("list");
            assert("describe"@.len() == 8);
            assert("list"@.len() == 4);
            assert("describe"@ != "list"@);
        }
        let sub = match subcommand {
            None => {
                return Err(CliError::ArgumentError("subcommand".to_owned()));
            },
            Some(sc) => sc,
        };
        if str_eq_exec(sub, "describe") {
            match Self::parse_describe_args(metastore_uri, index_id, source_id) {
                Ok(args) => Ok(SourceCliCommand::DescribeSource(args)),
                Err(err) => Err(err),
            }
        } else if str_eq_exec(sub, "list") {
            match Self::parse_list_args(metastore_uri, index_id) {
                Ok(args) => Ok(SourceCliCommand::ListSources(args)),
                Err(err) => Err(err),
            }
        } else {
            Err(CliError::ArgumentError(sub.to_owned()))
        }
    }
}

} // verus!
