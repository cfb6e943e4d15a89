use vstd::prelude::*;
use vstd::string::{StrSliceExecFns, StringExecFns};
use vstd::utf8::encode_utf8;
use crate::error::ProfError;
use crate::profile::{Profile, represents, wf_profile};
use crate::sample::{EntryV, Snapshot, bare_lines, entry_lines, str_eq, total_count};
use crate::spans::SpanRecorder;
use crate::text::folded_text;
use crate::wire::profile_bytes;

verus! {

/// The closed set of report formats a request can select. The raw query
/// string is parsed once into this enumeration; everything downstream
/// dispatches on it, never on the string.
#[derive(Clone, Copy, Debug, PartialEq, Eq, Structural)]
pub enum Format {
    Flamegraph,
    Proto,
    Folded,
    TracingFlamegraph,
}

/// Which format a raw selector string names: `flamegraph`, `proto`,
/// `folded`, and `tracing` / `tracing-flamegraph` for the span-flame
/// report; anything else is the invalid-format outcome.
pub open spec fn spec_parse_format(s: Seq<char>) -> Result<Format, ProfError> {
    if s == "flamegraph"@ {
        Ok(Format::Flamegraph)
    } else if s == "proto"@ {
        Ok(Format::Proto)
    } else if s == "folded"@ {
        Ok(Format::Folded)
    } else if s == "tracing"@ || s == "tracing-flamegraph"@ {
        Ok(Format::TracingFlamegraph)
    } else {
        Err(ProfError::InvalidFormat)
    }
}

/// Parses the format selector of a request.
pub fn parse_format(s: &String) -> (r: Result<Format, ProfError>)
    ensures
        r == spec_parse_format(s@),
{
    let flamegraph = String::from_str("flamegraph");
    if str_eq(s, &flamegraph) {
        return Ok(Format::Flamegraph);
    }
    let proto = String::from_str("proto");
    if str_eq(s, &proto) {
        return Ok(Format::Proto);
    }
    let folded = String::from_str("folded");
    if str_eq(s, &folded) {
        return Ok(Format::Folded);
    }
    let tracing1 = String::from_str("tracing");
    if str_eq(s, &tracing1) {
        return Ok(Format::TracingFlamegraph);
    }
    let tracing2 = String::from_str("tracing-flamegraph");
    if str_eq(s, &tracing2) {
        return Ok(Format::TracingFlamegraph);
    }
    Err(ProfError::InvalidFormat)
}

/// The response of the export endpoint: a status code, a content type,
/// an optional content disposition, and the payload. No partial payload
/// is ever returned: an encoder failure yields an error body instead.
pub struct HttpResponse {
    pub status: u16,
    pub content_type: String,
    pub content_disposition: Option<String>,
    pub body: Vec<u8>,
}

/// The name of the SVG document that the flamegraph renderer produces for
/// the given folded lines. The renderer is an outside collaborator; its
/// output is fixed by the lines alone.
pub uninterp spec fn svg_of(lines: Seq<Seq<char>>) -> Seq<u8>;

/// Whether the flamegraph renderer succeeds on the given folded lines.
/// Like the document itself, success is fixed by the lines alone (on an
/// in-memory sink the renderer fails exactly when no line carries a
/// positive count).
pub uninterp spec fn svg_renders(lines: Seq<Seq<char>>) -> bool;

/// Relies on inferno's `flamegraph::from_lines`: renders folded-stack
/// lines into a self-contained SVG flamegraph. With the `deterministic`
/// color option, success and output depend on the input lines alone.
/// The renderer sums the per-line counts in one unsigned counter word, so
/// lines whose counts sum past that word are excluded: on them the sum
/// would abort in an overflow-checked build.
#[verifier::external_body]
fn render_svg(lines: &Vec<String>) -> (r: Result<Vec<u8>, std::io::Error>)
    requires
        exists|s: Seq<EntryV>|
            lines.deep_view() == bare_lines(s) && #[trigger] total_count(s) <= u64::MAX,
    ensures
        r is Ok <==> svg_renders(lines.deep_view()),
        r matches Ok(b) ==> b@ == svg_of(lines.deep_view()),
{
    let mut opts = inferno::flamegraph::Options::default();
    opts.deterministic = true;
    let mut out: Vec<u8> = Vec::new();
    match inferno::flamegraph::from_lines(&mut opts, lines.iter().map(|s| s.as_str()), &mut out) {
        Ok(()) => Ok(out),
        Err(e) => Err(e),
    }
}

#[verifier::external_type_specification]
#[verifier::external_body]
pub struct ExIoError(std::io::Error);

/// What the endpoint answers when the request carries no usable format
/// selector: a client error with the missing-format diagnostic.
pub open spec fn missing_format_response(r: HttpResponse) -> bool {
    &&& r.status == 400
    &&& r.content_type@ == "text/plain"@
    &&& r.content_disposition is None
    &&& r.body@ == encode_utf8(ProfError::MissingFormat.spec_message())
}

/// What the endpoint answers for a selector outside the supported set: a
/// client error with the invalid-format diagnostic, and no encoder output
/// of any kind.
pub open spec fn invalid_format_response(r: HttpResponse) -> bool {
    &&& r.status == 404
    &&& r.content_type@ == "text/plain"@
    &&& r.content_disposition is None
    &&& r.body@ == encode_utf8(ProfError::InvalidFormat.spec_message())
}

/// What the endpoint answers when an encoder cannot complete: a server
/// error with the encoding-failure diagnostic and no partial payload.
pub open spec fn encoding_failure_response(r: HttpResponse) -> bool {
    &&& r.status == 500
    &&& r.content_type@ == "text/plain"@
    &&& r.content_disposition is None
    &&& r.body@ == encode_utf8(ProfError::EncodingFailure.spec_message())
}

/// The export endpoint: parses the format selector, dispatches to the
/// matching encoder over the caller's point-in-time snapshot (or the span
/// recorder's weights), and pairs the payload with its headers. It
/// aggregates nothing itself. The snapshot is the immutable copy the
/// caller took from its collector, so concurrent sampling cannot reach
/// the encoders.
///
/// The contract pins every outcome: a missing selector and an invalid
/// selector are distinct client errors with fixed diagnostics; each valid
/// format yields its exact payload and headers. Only the flamegraph
/// branch depends on the outside renderer: where the snapshot's total
/// fits a counter word and the renderer succeeds on these lines, the
/// answer is the renderer's SVG; otherwise it is the encoding-failure
/// response, never a partial payload.
pub fn handle_request(format: Option<&String>, snap: &Snapshot, spans: &SpanRecorder) -> (r:
    HttpResponse)
    requires
        snap.wf(),
        spans.wf(),
    ensures
        format is None ==> missing_format_response(r),
        format matches Some(f) ==> match spec_parse_format(f@) {
            Err(_) => invalid_format_response(r),
            Ok(Format::Folded) => {
                &&& r.status == 200
                &&& r.content_type@ == "text/plain"@
                &&& r.content_disposition matches Some(d) && d@
                    == "attachment; filename=profile.folded"@
                &&& r.body@ == encode_utf8(folded_text(entry_lines(snap.deep_view())))
            },
            Ok(Format::TracingFlamegraph) => {
                &&& r.status == 200
                &&& r.content_type@ == "text/plain"@
                &&& r.content_disposition matches Some(d) && d@
                    == "attachment; filename=profile.folded"@
                &&& r.body@ == encode_utf8(folded_text(entry_lines(spans.weights_view())))
            },
            Ok(Format::Proto) => {
                &&& r.status == 200
                &&& r.content_type@ == "application/octet-stream"@
                &&& r.content_disposition matches Some(d) && d@
                    == "attachment; filename=profile.pb"@
                &&& exists|p: Profile|
                    wf_profile(p) && #[trigger] represents(p, snap.deep_view()) && r.body@
                        == profile_bytes(p)
            },
            Ok(Format::Flamegraph) => {
                &&& (total_count(snap.deep_view()) > u64::MAX ==> encoding_failure_response(r))
                &&& (total_count(snap.deep_view()) <= u64::MAX && svg_renders(
                    bare_lines(snap.deep_view()),
                ) ==> {
                    &&& r.status == 200
                    &&& r.content_type@ == "image/svg+xml"@
                    &&& r.content_disposition is None
                    &&& r.body@ == svg_of(bare_lines(snap.deep_view()))
                })
                &&& (total_count(snap.deep_view()) <= u64::MAX && !svg_renders(
                    bare_lines(snap.deep_view()),
                ) ==> encoding_failure_response(r))
            },
        },
{
    let fmt = match format {
        None => {
            return HttpResponse {
                status: 400,
                content_type: String::from_str("text/plain"),
                content_disposition: None,
                body: ProfError::MissingFormat.message().as_bytes_vec(),
            };
        },
        Some(f) => match parse_format(f) {
            Err(_) => {
                return HttpResponse {
                    status: 404,
                    content_type: String::from_str("text/plain"),
                    content_disposition: None,
                    body: ProfError::InvalidFormat.message().as_bytes_vec(),
                };
            },
            Ok(fmt) => fmt,
        },
    };
    match fmt {
        Format::Folded => {
            let text = snap.folded();
            HttpResponse {
                status: 200,
                content_type: String::from_str("text/plain"),
                content_disposition: Some(String::from_str("attachment; filename=profile.folded")),
                body: text.as_str().as_bytes_vec(),
            }
        },
        Format::TracingFlamegraph => {
            let text = spans.flush();
            HttpResponse {
                status: 200,
                content_type: String::from_str("text/plain"),
                content_disposition: Some(String::from_str("attachment; filename=profile.folded")),
                body: text.as_str().as_bytes_vec(),
            }
        },
        Format::Proto => {
            let p = Profile::build(snap);
            let body = p.to_bytes();
            proof {
                assert(wf_profile(p) && represents(p, snap.deep_view()) && body@
                    == profile_bytes(p));
            }
            HttpResponse {
                status: 200,
                content_type: String::from_str("application/octet-stream"),
                content_disposition: Some(String::from_str("attachment; filename=profile.pb")),
                body,
            }
        },
        Format::Flamegraph => {
            if snap.total().is_none() {
                return HttpResponse {
                    status: 500,
                    content_type: String::from_str("text/plain"),
                    content_disposition: None,
                    body: ProfError::EncodingFailure.message().as_bytes_vec(),
                };
            }
            let lines = snap.folded_lines();
            proof {
                assert(lines.deep_view() == bare_lines(snap.deep_view()) && total_count(
                    snap.deep_view(),
                ) <= u64::MAX);
            }
            match render_svg(&lines) {
                Ok(body) => HttpResponse {
                    status: 200,
                    content_type: String::from_str("image/svg+xml"),
                    content_disposition: None,
                    body,
                },
                Err(_) => HttpResponse {
                    status: 500,
                    content_type: String::from_str("text/plain"),
                    content_disposition: None,
                    body: ProfError::EncodingFailure.message().as_bytes_vec(),
                },
            }
        },
    }
}

} // verus!
