//! Pi-specific rules: the read-only project-trust decision, and validation of
//! the JSONL answers of Pi's RPC mode.
use vstd::prelude::*;

use crate::domain::provider::{PiProjectTrust, PiProjectTrustState};
use crate::domain::workspace::WorkspaceId;
use crate::paths::{push_relative, push_relative_spec, path_join, path_parent, paths_equal, spec_path_join, spec_path_parent, spec_paths_equal};
use crate::services::detection::pi_agent_dir_variable;
use crate::services::provider::{LoginEnvironment, ProviderError, MAX_COMMAND_BYTES};
use crate::text::{opt_text, join_str, split_bytes, split_spec, str_eq, utf8_to_string, views_of};
use vstd::string::StrSliceExecFns;
use vstd::utf8::{decode_utf8, encode_utf8, valid_utf8};

verus! {

/// Longest accepted JSONL line in an RPC answer: 256 KiB.
pub const MAX_RPC_LINE_BYTES: usize = 262144;

/// The fields of one JSON line of an RPC answer that the probe looks at.
pub struct RpcLineFields {
    pub id: Option<String>,
    pub kind: Option<String>,
    pub command: Option<String>,
    pub success: Option<bool>,
}

/// What parsing a line as JSON with `serde_json::from_slice` finds: nothing
/// when the line is not JSON; otherwise the string members `id`, `type` and
/// `command` and the boolean member `success`, each when present with that type.
pub uninterp spec fn spec_rpc_line_fields(line: Seq<u8>) -> Option<
    (Option<Seq<char>>, Option<Seq<char>>, Option<Seq<char>>, Option<bool>),
>;

/// Calls `serde_json::from_slice::<serde_json::Value>` on one line and picks
/// the members `id`, `type`, `command` (as strings) and `success` (as a bool).
/// The result is named by `spec_rpc_line_fields`; what counts as JSON is left
/// to serde_json.
#[verifier::external_body]
fn rpc_line_fields(line: &[u8]) -> (r: Option<RpcLineFields>)
    ensures
        match r {
            Some(f) => spec_rpc_line_fields(line@) == Some(
                (opt_text(f.id), opt_text(f.kind), opt_text(f.command), f.success),
            ),
            None => spec_rpc_line_fields(line@) is None,
        },
{
    let value: serde_json::Value = serde_json::from_slice(line).ok()?;
    Some(
        RpcLineFields {
            id: value.get("id").and_then(serde_json::Value::as_str).map(str::to_owned),
            kind: value.get("type").and_then(serde_json::Value::as_str).map(str::to_owned),
            command: value.get("command").and_then(serde_json::Value::as_str).map(str::to_owned),
            success: value.get("success").and_then(serde_json::Value::as_bool),
        },
    )
}

/// Whether a JSON line is the successful `get_state` response to request `id`;
/// a line that is not JSON breaks the protocol.
pub open spec fn rpc_line_matches_spec(line: Seq<u8>, id: Seq<char>) -> Result<bool, ProviderError> {
    match spec_rpc_line_fields(line) {
        None => Err(ProviderError::RpcProtocolInvalid),
        Some((line_id, kind, command, success)) => Ok(
            line_id == Some(id) && kind == Some("response"@) && command == Some("get_state"@)
                && success == Some(true),
        ),
    }
}

fn opt_text_is(value: &Option<String>, expected: &str) -> (r: bool)
    ensures
        r == (opt_text(*value) == Some(expected@)),
{
    match value {
        Some(text) => str_eq(text.as_str(), expected),
        None => false,
    }
}

pub fn rpc_response_matches(line: &[u8], id: &str) -> (r: Result<bool, ProviderError>)
    ensures
        r == rpc_line_matches_spec(line@, id@),
{
    match rpc_line_fields(line) {
        None => Err(ProviderError::RpcProtocolInvalid),
        Some(fields) => {
            let matches = opt_text_is(&fields.id, id) && opt_text_is(&fields.kind, "response")
                && opt_text_is(&fields.command, "get_state") && match fields.success {
                Some(success) => success,
                None => false,
            };
            Ok(matches)
        },
    }
}

/// Whether the lines of an answer hold the expected response: empty lines are
/// skipped, an over-long line or one that is not JSON fails, the first
/// matching line succeeds.
pub open spec fn validate_lines_spec(lines: Seq<Seq<u8>>, id: Seq<char>) -> Result<
    (),
    ProviderError,
>
    decreases lines.len(),
{
    if lines.len() == 0 {
        Err(ProviderError::RpcProtocolInvalid)
    } else if lines[0].len() == 0 {
        validate_lines_spec(lines.drop_first(), id)
    } else if lines[0].len() > MAX_RPC_LINE_BYTES {
        Err(ProviderError::RpcResponseTooLarge)
    } else {
        match rpc_line_matches_spec(lines[0], id) {
            Err(e) => Err(e),
            Ok(true) => Ok(()),
            Ok(false) => validate_lines_spec(lines.drop_first(), id),
        }
    }
}

pub open spec fn validate_rpc_response_spec(bytes: Seq<u8>, id: Seq<char>) -> Result<
    (),
    ProviderError,
> {
    if bytes.len() > MAX_COMMAND_BYTES {
        Err(ProviderError::RpcResponseTooLarge)
    } else {
        validate_lines_spec(split_spec(bytes, 10u8), id)
    }
}

/// Checks a complete RPC answer for the successful `get_state` response to `id`.
pub fn validate_rpc_response(bytes: &[u8], id: &str) -> (r: Result<(), ProviderError>)
    ensures
        r == validate_rpc_response_spec(bytes@, id@),
{
    if bytes.len() > MAX_COMMAND_BYTES {
        return Err(ProviderError::RpcResponseTooLarge);
    }
    let lines = split_bytes(bytes, 10u8);
    let ghost all = views_of(lines@);
    let mut k: usize = 0;
    assert(all.skip(0) =~= all);
    while k < lines.len()
        invariant
            k <= lines@.len(),
            bytes@.len() <= MAX_COMMAND_BYTES,
            views_of(lines@) == all,
            all == split_spec(bytes@, 10u8),
            validate_lines_spec(all, id@) == validate_lines_spec(all.skip(k as int), id@),
        decreases lines@.len() - k,
    {
        let line = lines[k].as_slice();
        assert(all.skip(k as int)[0] == all[k as int]);
        assert(line@ == all[k as int]);
        assert(all.skip(k as int).drop_first() =~= all.skip(k + 1));
        if line.len() != 0 {
            if line.len() > MAX_RPC_LINE_BYTES {
                return Err(ProviderError::RpcResponseTooLarge);
            }
            let outcome = rpc_response_matches(line, id);
            proof {
                let rest = all.skip(k as int);
                assert(rest.len() > 0 && rest[0] == line@);
                assert(validate_lines_spec(rest, id@) == match rpc_line_matches_spec(line@, id@) {
                    Err(e) => Err(e),
                    Ok(true) => Ok(()),
                    Ok(false) => validate_lines_spec(rest.drop_first(), id@),
                });
            }
            match outcome {
                Err(e) => {
                    return Err(e);
                },
                Ok(true) => {
                    return Ok(());
                },
                Ok(false) => {},
            }
        }
        k = k + 1;
    }
    assert(all.skip(k as int) =~= Seq::<Seq<u8>>::empty());
    Err(ProviderError::RpcProtocolInvalid)
}

/// Where an RPC answer stands while it streams in.
#[derive(Debug)]
pub enum RpcScan {
    /// No complete line answered the request yet.
    Pending,
    /// The expected response arrived.
    Answered,
    /// The answer broke the protocol or a limit.
    Failed(ProviderError),
}

/// The position of the first newline in `s`.
pub open spec fn newline_at(s: Seq<u8>) -> Option<int>
    decreases s.len(),
{
    if s.len() == 0 {
        None
    } else if s[0] == 10u8 {
        Some(0)
    } else {
        match newline_at(s.drop_first()) {
            Some(i) => Some(i + 1),
            None => None,
        }
    }
}

/// Reading the complete lines of `rest` as they stream in: how many bytes the
/// reader consumes, and whether it stopped on a matching line (`Ok(true)`),
/// ran out of complete lines (`Ok(false)`), or failed. Unlike the final
/// validation, every complete line counts, empty ones too.
pub open spec fn scan_lines_spec(rest: Seq<u8>, id: Seq<char>) -> (int, Result<bool, ProviderError>)
    decreases rest.len(),
{
    match newline_at(rest) {
        None => (0, Ok(false)),
        Some(end) => {
            let line = rest.take(end);
            if line.len() > MAX_RPC_LINE_BYTES {
                (end + 1, Err(ProviderError::RpcResponseTooLarge))
            } else {
                match rpc_line_matches_spec(line, id) {
                    Err(e) => (end + 1, Err(e)),
                    Ok(true) => (end + 1, Ok(true)),
                    Ok(false) => if 0 <= end < rest.len() {
                        let (consumed, outcome) = scan_lines_spec(rest.skip(end + 1), id);
                        (end + 1 + consumed, outcome)
                    } else {
                        (end + 1, Ok(false))
                    },
                }
            }
        },
    }
}

proof fn lemma_newline_at_bounds(s: Seq<u8>)
    ensures
        match newline_at(s) {
            Some(i) => 0 <= i < s.len() && s[i] == 10u8,
            None => forall|k: int| 0 <= k < s.len() ==> s[k] != 10u8,
        },
    decreases s.len(),
{
    if s.len() > 0 {
        lemma_newline_at_bounds(s.drop_first());
        if s[0] != 10u8 {
            assert forall|k: int| 1 <= k < s.len() implies s[k] == s.drop_first()[k - 1] by {}
        }
    }
}

proof fn lemma_newline_at_append(a: Seq<u8>, b: Seq<u8>)
    requires
        newline_at(a) is Some,
    ensures
        newline_at(a + b) == newline_at(a),
    decreases a.len(),
{
    assert((a + b)[0] == a[0]);
    if a[0] != 10u8 {
        assert((a + b).drop_first() =~= a.drop_first() + b);
        lemma_newline_at_append(a.drop_first(), b);
    }
}

/// Reading an answer in pieces gives the verdict of reading it whole: a scan
/// that stopped for want of a complete line resumes, once more bytes arrive,
/// exactly where it stopped.
pub proof fn lemma_scan_is_resumable(a: Seq<u8>, b: Seq<u8>, id: Seq<char>)
    requires
        scan_lines_spec(a, id).1 == Ok::<bool, ProviderError>(false),
    ensures
        ({
            let consumed = scan_lines_spec(a, id).0;
            let rest = scan_lines_spec((a + b).skip(consumed), id);
            &&& 0 <= consumed <= a.len()
            &&& scan_lines_spec(a + b, id) == (consumed + rest.0, rest.1)
        }),
    decreases a.len(),
{
    lemma_newline_at_bounds(a);
    match newline_at(a) {
        None => {
            assert((a + b).skip(0) =~= a + b);
        },
        Some(end) => {
            lemma_newline_at_append(a, b);
            let ab = a + b;
            assert(ab.take(end) =~= a.take(end));
            assert(ab.skip(end + 1) =~= a.skip(end + 1) + b);
            lemma_scan_is_resumable(a.skip(end + 1), b, id);
            let c1 = scan_lines_spec(a.skip(end + 1), id).0;
            assert(ab.skip(end + 1).skip(c1) =~= ab.skip(end + 1 + c1));
        },
    }
}

/// The first newline in `output` at or after `from`.
fn find_newline(output: &[u8], from: usize) -> (r: Option<usize>)
    requires
        from <= output@.len(),
    ensures
        match newline_at(output@.skip(from as int)) {
            Some(i) => r is Some && r->0 == from + i,
            None => r is None,
        },
{
    let n = output.len();
    let mut i: usize = from;
    assert(output@.skip(from as int).skip(0) =~= output@.skip(from as int));
    while i < n
        invariant
            n == output@.len(),
            from <= i <= n,
            newline_at(output@.skip(from as int)) == match newline_at(output@.skip(i as int)) {
                Some(j) => Some(j + (i - from)),
                None => None::<int>,
            },
        decreases n - i,
    {
        if output[i] == 10u8 {
            assert(output@.skip(i as int)[0] == 10u8);
            return Some(i);
        }
        assert(output@.skip(i as int).drop_first() =~= output@.skip(i + 1));
        i = i + 1;
    }
    assert(output@.skip(n as int) =~= Seq::<u8>::empty());
    None
}

/// Takes in the complete lines of `output` after position `parsed` and says
/// where the answer stands. The answer counts only once the lines read so far
/// validate; the new read position is returned with the outcome.
pub fn scan_rpc_output(output: &[u8], parsed: usize, id: &str) -> (r: (usize, RpcScan))
    requires
        parsed <= output@.len(),
    ensures
        ({
            let (consumed, outcome) = scan_lines_spec(output@.skip(parsed as int), id@);
            &&& r.0 == parsed + consumed
            &&& r.0 <= output@.len()
            &&& outcome matches Err(e) ==> r.1 == RpcScan::Failed(e)
            &&& outcome is Ok ==> if validate_rpc_response_spec(output@.take(r.0 as int), id@) is Ok {
                r.1 == RpcScan::Answered
            } else {
                r.1 == RpcScan::Pending
            }
        }),
    decreases output@.len() - parsed,
{
    match find_newline(output, parsed) {
        None => {
            proof {
                assert(scan_lines_spec(output@.skip(parsed as int), id@) == (0int, Ok::<bool, ProviderError>(false)));
            }
            let prefix = &output[0..parsed];
            assert(prefix@ =~= output@.take(parsed as int));
            if validate_rpc_response(prefix, id).is_ok() {
                (parsed, RpcScan::Answered)
            } else {
                (parsed, RpcScan::Pending)
            }
        },
        Some(end) => {
            proof {
                lemma_newline_at_bounds(output@.skip(parsed as int));
            }
            let total = output.len();
            assert(parsed <= end < total);
            let line = &output[parsed..end];
            assert(line@ =~= output@.skip(parsed as int).take(end - parsed));
            let next = end + 1;
            if line.len() > MAX_RPC_LINE_BYTES {
                return (next, RpcScan::Failed(ProviderError::RpcResponseTooLarge));
            }
            match rpc_response_matches(line, id) {
                Err(e) => (next, RpcScan::Failed(e)),
                Ok(true) => {
                    let prefix = &output[0..next];
                    assert(prefix@ =~= output@.take(next as int));
                    if validate_rpc_response(prefix, id).is_ok() {
                        (next, RpcScan::Answered)
                    } else {
                        (next, RpcScan::Pending)
                    }
                },
                Ok(false) => {
                    assert(output@.skip(parsed as int).skip(end - parsed + 1) =~= output@.skip(
                        next as int,
                    ));
                    scan_rpc_output(output, next, id)
                },
            }
        },
    }
}

/// Adds a streamed chunk to an RPC answer and scans it; an answer that would
/// grow past the output limit fails without taking the chunk.
pub fn push_rpc_chunk(output: &mut Vec<u8>, chunk: &[u8], parsed: usize, id: &str) -> (r: (
    usize,
    RpcScan,
))
    requires
        parsed <= old(output)@.len(),
    ensures
        old(output)@.len() + chunk@.len() > MAX_COMMAND_BYTES ==> final(output)@ == old(output)@
            && r.0 == parsed && r.1 == RpcScan::Failed(ProviderError::RpcResponseTooLarge),
        old(output)@.len() + chunk@.len() <= MAX_COMMAND_BYTES ==> ({
            let (consumed, outcome) = scan_lines_spec(final(output)@.skip(parsed as int), id@);
            &&& final(output)@ == old(output)@ + chunk@
            &&& r.0 == parsed + consumed
            &&& outcome matches Err(e) ==> r.1 == RpcScan::Failed(e)
            &&& outcome is Ok ==> if validate_rpc_response_spec(
                final(output)@.take(r.0 as int),
                id@,
            ) is Ok {
                r.1 == RpcScan::Answered
            } else {
                r.1 == RpcScan::Pending
            }
        }),
{
    if chunk.len() > MAX_COMMAND_BYTES || output.len() > MAX_COMMAND_BYTES - chunk.len() {
        return (parsed, RpcScan::Failed(ProviderError::RpcResponseTooLarge));
    }
    let mut i: usize = 0;
    let ghost before = output@;
    while i < chunk.len()
        invariant
            i <= chunk@.len(),
            output@ == before + chunk@.take(i as int),
        decreases chunk@.len() - i,
    {
        output.push(chunk[i]);
        i = i + 1;
        assert(output@ =~= before + chunk@.take(i as int));
    }
    assert(chunk@.take(chunk@.len() as int) =~= chunk@);
    scan_rpc_output(output.as_slice(), parsed, id)
}

/// The request the probe sends: one JSONL `get_state` command with id `id`.
pub fn rpc_request(id: &str) -> (r: String)
    ensures
        r@ == "{\"type\":\"get_state\",\"id\":\""@ + id@ + "\"}\n"@,
{
    join_str(&join_str("{\"type\":\"get_state\",\"id\":\"", id), "\"}\n")
}

pub open spec fn rpc_probe_args_spec() -> Seq<Seq<char>> {
    seq![
        "--mode"@,
        "rpc"@,
        "--no-session"@,
        "--no-approve"@,
        "--offline"@,
        "--no-extensions"@,
        "--no-skills"@,
        "--no-prompt-templates"@,
        "--no-themes"@,
        "--no-context-files"@,
    ]
}

/// The Pi arguments of the RPC probe: RPC mode, no session, no approvals,
/// offline, and no extensions, skills, prompt templates, themes or context files.
pub fn rpc_probe_args() -> (r: Vec<&'static str>)
    ensures
        r@.map_values(|a: &str| a@) == rpc_probe_args_spec(),
{
    let r = vec![
        "--mode",
        "rpc",
        "--no-session",
        "--no-approve",
        "--offline",
        "--no-extensions",
        "--no-skills",
        "--no-prompt-templates",
        "--no-themes",
        "--no-context-files",
    ];
    assert(r@.map_values(|a: &str| a@) =~= rpc_probe_args_spec());
    r
}

/// Where Pi keeps its agent files: `PI_CODING_AGENT_DIR` when the login
/// environment sets it, otherwise `~/.pi/agent`; `None` when `HOME` is unset,
/// since Pi's trust cannot be located then.
pub open spec fn pi_agent_dir_spec(environment: Map<Seq<u8>, Seq<u8>>) -> Option<Seq<u8>> {
    if !environment.contains_key(home_variable()) {
        None
    } else if environment.contains_key(pi_agent_dir_variable()) {
        Some(environment[pi_agent_dir_variable()])
    } else {
        Some(push_relative_spec(environment[home_variable()], encode_utf8(".pi/agent"@)))
    }
}

pub open spec fn home_variable() -> Seq<u8> {
    encode_utf8("HOME"@)
}

pub fn pi_agent_dir(environment: &LoginEnvironment) -> (r: Option<Vec<u8>>)
    ensures
        match pi_agent_dir_spec(environment@) {
            Some(dir) => r matches Some(d) && d@ == dir,
            None => r is None,
        },
{
    let home = match environment.get("HOME".as_bytes()) {
        Some(home) => home,
        None => {
            return None;
        },
    };
    match environment.get("PI_CODING_AGENT_DIR".as_bytes()) {
        Some(dir) => Some(dir),
        None => Some(push_relative(home.as_slice(), ".pi/agent".as_bytes())),
    }
}

/// One value of Pi's `trust.json`.
pub enum TrustValue {
    Decision(bool),
    Null,
    /// Any other JSON value.
    Other,
}

pub open spec fn trust_value_decision(value: TrustValue) -> Option<bool> {
    match value {
        TrustValue::Decision(b) => Some(b),
        _ => None,
    }
}

/// The saved decisions of `trust.json`: every value must be a boolean or
/// `null`, else the trust cannot be read reliably.
pub fn trust_decisions(entries: Vec<(String, TrustValue)>) -> (r: Result<
    Vec<(String, Option<bool>)>,
    ProviderError,
>)
    ensures
        (forall|i: int| 0 <= i < entries@.len() ==> !((#[trigger] entries@[i]).1 is Other)) ==> (
        r matches Ok(decisions) && decisions@.len() == entries@.len() && forall|i: int|
            0 <= i < entries@.len() ==> (#[trigger] decisions@[i]).0@ == entries@[i].0@
                && decisions@[i].1 == trust_value_decision(entries@[i].1)),
        (exists|i: int| 0 <= i < entries@.len() && (#[trigger] entries@[i]).1 is Other) ==> r
            == Err::<Vec<(String, Option<bool>)>, ProviderError>(ProviderError::PiTrustUnknown),
{
    let mut decisions: Vec<(String, Option<bool>)> = Vec::new();
    let mut i: usize = 0;
    while i < entries.len()
        invariant
            i <= entries@.len(),
            decisions@.len() == i,
            forall|k: int| 0 <= k < i ==> !((#[trigger] entries@[k]).1 is Other),
            forall|k: int|
                0 <= k < i ==> (#[trigger] decisions@[k]).0@ == entries@[k].0@ && decisions@[k].1
                    == trust_value_decision(entries@[k].1),
        decreases entries@.len() - i,
    {
        let decision = match &entries[i].1 {
            TrustValue::Decision(b) => Some(*b),
            TrustValue::Null => None,
            TrustValue::Other => {
                return Err(ProviderError::PiTrustUnknown);
            },
        };
        decisions.push((entries[i].0.clone(), decision));
        i = i + 1;
    }
    Ok(decisions)
}

/// The value that Pi's `defaultProjectTrust` setting holds.
pub enum DefaultTrustSetting {
    /// The setting is absent.
    Absent,
    /// The setting is a string.
    Text(String),
    /// The setting has another JSON type.
    NotText,
}

/// The kind of one member value of a JSON object, as Pi's files are read:
/// a boolean, `null`, a string with its text, or anything else.
pub enum JsonKind {
    Bool(bool),
    Null,
    Text(String),
    Other,
}

/// A JSON member value as the specifications see it.
pub enum JsonMember {
    Bool(bool),
    Null,
    Text(Seq<char>),
    Other,
}

impl View for JsonKind {
    type V = JsonMember;

    open spec fn view(&self) -> JsonMember {
        match self {
            JsonKind::Bool(b) => JsonMember::Bool(*b),
            JsonKind::Null => JsonMember::Null,
            JsonKind::Text(t) => JsonMember::Text(t@),
            JsonKind::Other => JsonMember::Other,
        }
    }
}

/// What `serde_json::from_slice::<serde_json::Value>` makes of `bytes`, when
/// that is a JSON object: its members in the order in which
/// `serde_json::Map` holds them, each key with the kind of its value. `None`
/// when the bytes are not JSON, or are JSON but not an object.
pub uninterp spec fn spec_json_object(bytes: Seq<u8>) -> Option<Seq<(Seq<char>, JsonMember)>>;

pub open spec fn members_view(members: Seq<(String, JsonKind)>) -> Seq<(Seq<char>, JsonMember)> {
    members.map_values(|m: (String, JsonKind)| (m.0@, m.1@))
}

/// Calls `serde_json::from_slice::<serde_json::Value>` and, when the value
/// is an object, lists its members with the kind of each value. The result
/// is named by `spec_json_object`; what counts as JSON, and the order of the
/// members, are left to serde_json.
#[verifier::external_body]
fn json_object(bytes: &[u8]) -> (r: Option<Vec<(String, JsonKind)>>)
    ensures
        match r {
            Some(members) => spec_json_object(bytes@) == Some(members_view(members@)),
            None => spec_json_object(bytes@) is None,
        },
{
    let value: serde_json::Value = serde_json::from_slice(bytes).ok()?;
    let mut members = Vec::new();
    for (key, value) in value.as_object()? {
        let kind = match value {
            serde_json::Value::Bool(b) => JsonKind::Bool(*b),
            serde_json::Value::Null => JsonKind::Null,
            serde_json::Value::String(t) => JsonKind::Text(t.clone()),
            _ => JsonKind::Other,
        };
        members.push((key.clone(), kind));
    }
    Some(members)
}

pub open spec fn opt_bytes(bytes: Option<&[u8]>) -> Option<Seq<u8>> {
    match bytes {
        Some(b) => Some(b@),
        None => None,
    }
}

/// The members of one of Pi's JSON files: an absent file has none; a file
/// over `MAX_COMMAND_BYTES`, or one that is not a JSON object, cannot be read
/// reliably (`None`).
pub open spec fn pi_file_members(bytes: Option<Seq<u8>>) -> Option<Seq<(Seq<char>, JsonMember)>> {
    match bytes {
        None => Some(Seq::empty()),
        Some(b) => if b.len() > MAX_COMMAND_BYTES {
            None
        } else {
            spec_json_object(b)
        },
    }
}

/// A trust value decides something only as a boolean or `null`.
pub open spec fn member_decides(m: JsonMember) -> bool {
    m is Bool || m is Null
}

pub open spec fn member_decision(m: JsonMember) -> Option<bool> {
    match m {
        JsonMember::Bool(b) => Some(b),
        _ => None,
    }
}

pub open spec fn trust_value_of(m: JsonMember) -> TrustValue {
    match m {
        JsonMember::Bool(b) => TrustValue::Decision(b),
        JsonMember::Null => TrustValue::Null,
        _ => TrustValue::Other,
    }
}

/// The saved decisions of a `trust.json` file (`None` when absent), or
/// `None` when they cannot be read reliably: the file is too large, is not a
/// JSON object, or holds a value that is neither a boolean nor `null`.
pub open spec fn trust_file_entries(bytes: Option<Seq<u8>>) -> Option<Seq<(Seq<char>, Option<bool>)>> {
    match pi_file_members(bytes) {
        None => None,
        Some(members) => if forall|i: int| 0 <= i < members.len() ==> member_decides(#[trigger] members[i].1) {
            Some(members.map_values(|m: (Seq<char>, JsonMember)| (m.0, member_decision(m.1))))
        } else {
            None
        },
    }
}

/// Reads the entries of Pi's `trust.json` from its bytes (`None` when the
/// file does not exist).
pub fn trust_entries_from_bytes(bytes: Option<&[u8]>) -> (r: Result<
    Vec<(String, Option<bool>)>,
    ProviderError,
>)
    ensures
        match trust_file_entries(opt_bytes(bytes)) {
            None => r matches Err(ProviderError::PiTrustUnknown),
            Some(entries) => r matches Ok(v) && entries_view(v@) == entries,
        },
{
    let b = match bytes {
        None => {
            let empty: Vec<(String, Option<bool>)> = Vec::new();
            assert(entries_view(empty@) =~= Seq::<(Seq<char>, Option<bool>)>::empty());
            return Ok(empty);
        },
        Some(b) => b,
    };
    if b.len() > MAX_COMMAND_BYTES {
        return Err(ProviderError::PiTrustUnknown);
    }
    let members = match json_object(b) {
        None => {
            return Err(ProviderError::PiTrustUnknown);
        },
        Some(members) => members,
    };
    let ghost mv = members_view(members@);
    let mut values: Vec<(String, TrustValue)> = Vec::new();
    let mut i: usize = 0;
    while i < members.len()
        invariant
            i <= members@.len(),
            mv == members_view(members@),
            values@.len() == i,
            forall|k: int|
                0 <= k < i ==> (#[trigger] values@[k]).0@ == mv[k].0 && values@[k].1
                    == trust_value_of(mv[k].1),
        decreases members@.len() - i,
    {
        let value = match &members[i].1 {
            JsonKind::Bool(b) => TrustValue::Decision(*b),
            JsonKind::Null => TrustValue::Null,
            _ => TrustValue::Other,
        };
        values.push((members[i].0.clone(), value));
        i = i + 1;
    }
    let ghost vs = values@;
    let r = trust_decisions(values);
    proof {
        if forall|k: int| 0 <= k < mv.len() ==> member_decides(#[trigger] mv[k].1) {
            assert forall|k: int| 0 <= k < vs.len() implies !((#[trigger] vs[k]).1 is Other) by {
                assert(member_decides(mv[k].1));
            }
            let v = r->Ok_0;
            assert(entries_view(v@) =~= mv.map_values(
                |m: (Seq<char>, JsonMember)| (m.0, member_decision(m.1)),
            ));
        } else {
            let k = choose|k: int| 0 <= k < mv.len() && !member_decides(#[trigger] mv[k].1);
            assert(vs[k].1 is Other);
        }
    }
    r
}

/// The member named `key`, the first one when several are.
pub open spec fn member_named(members: Seq<(Seq<char>, JsonMember)>, key: Seq<char>) -> Option<
    JsonMember,
>
    decreases members.len(),
{
    if members.len() == 0 {
        None
    } else if members[0].0 == key {
        Some(members[0].1)
    } else {
        member_named(members.drop_first(), key)
    }
}

/// `defaultProjectTrust` in a `settings.json` file: `None` when the file
/// cannot be read reliably, else the member, if there is one (an absent file
/// has none).
pub open spec fn default_trust_member(bytes: Option<Seq<u8>>) -> Option<Option<JsonMember>> {
    match pi_file_members(bytes) {
        None => None,
        Some(members) => Some(member_named(members, "defaultProjectTrust"@)),
    }
}

/// Reads `defaultProjectTrust` from the bytes of Pi's `settings.json`
/// (`None` when the file does not exist).
pub fn default_trust_from_bytes(bytes: Option<&[u8]>) -> (r: Result<DefaultTrustSetting, ProviderError>)
    ensures
        match default_trust_member(opt_bytes(bytes)) {
            None => r matches Err(ProviderError::PiTrustUnknown),
            Some(None) => r matches Ok(DefaultTrustSetting::Absent),
            Some(Some(JsonMember::Text(t))) => r matches Ok(DefaultTrustSetting::Text(s)) && s@ == t,
            Some(Some(_)) => r matches Ok(DefaultTrustSetting::NotText),
        },
{
    let b = match bytes {
        None => {
            return Ok(DefaultTrustSetting::Absent);
        },
        Some(b) => b,
    };
    if b.len() > MAX_COMMAND_BYTES {
        return Err(ProviderError::PiTrustUnknown);
    }
    let members = match json_object(b) {
        None => {
            return Err(ProviderError::PiTrustUnknown);
        },
        Some(members) => members,
    };
    let ghost mv = members_view(members@);
    let mut i: usize = 0;
    assert(mv.skip(0) =~= mv);
    while i < members.len()
        invariant
            i <= members@.len(),
            mv == members_view(members@),
            pi_file_members(opt_bytes(bytes)) == Some(mv),
            member_named(mv.skip(i as int), "defaultProjectTrust"@) == member_named(
                mv,
                "defaultProjectTrust"@,
            ),
        decreases members@.len() - i,
    {
        assert(mv.skip(i as int)[0] == mv[i as int]);
        assert(mv.skip(i as int).drop_first() =~= mv.skip(i + 1));
        assert(mv[i as int] == (members@[i as int].0@, members@[i as int].1@));
        if str_eq(members[i].0.as_str(), "defaultProjectTrust") {
            assert(member_named(mv.skip(i as int), "defaultProjectTrust"@) == Some(mv[i as int].1));
            let setting = match &members[i].1 {
                JsonKind::Text(t) => DefaultTrustSetting::Text(t.clone()),
                _ => DefaultTrustSetting::NotText,
            };
            return Ok(setting);
        }
        i = i + 1;
    }
    assert(mv.skip(i as int) =~= Seq::<(Seq<char>, JsonMember)>::empty());
    Ok(DefaultTrustSetting::Absent)
}

/// What a saved trust entry decides: `Some` for `true`/`false`, `None` for `null`.
pub open spec fn entries_view(entries: Seq<(String, Option<bool>)>) -> Seq<(Seq<char>, Option<bool>)> {
    entries.map_values(|e: (String, Option<bool>)| (e.0@, e.1))
}

/// The decision saved for exactly `path`, if any.
pub open spec fn saved_decision(entries: Seq<(Seq<char>, Option<bool>)>, path: Seq<char>) -> Option<
    bool,
>
    decreases entries.len(),
{
    if entries.len() == 0 {
        None
    } else if entries[0].0 == path {
        entries[0].1
    } else {
        saved_decision(entries.drop_first(), path)
    }
}

/// The decision saved for `path` or its nearest ancestor that has one.
pub open spec fn nearest_decision_spec(entries: Seq<(Seq<char>, Option<bool>)>, path: Seq<char>) -> Option<
    bool,
>
    decreases path.len(),
{
    match saved_decision(entries, path) {
        Some(decision) => Some(decision),
        None => match spec_path_parent(path) {
            Some(parent) => if parent.len() < path.len() {
                nearest_decision_spec(entries, parent)
            } else {
                None
            },
            None => None,
        },
    }
}

fn saved_decision_exec(entries: &Vec<(String, Option<bool>)>, path: &str) -> (r: Option<bool>)
    ensures
        r == saved_decision(entries_view(entries@), path@),
{
    let ghost all = entries_view(entries@);
    let mut k: usize = 0;
    assert(all.skip(0) =~= all);
    while k < entries.len()
        invariant
            k <= entries@.len(),
            all == entries_view(entries@),
            saved_decision(all, path@) == saved_decision(all.skip(k as int), path@),
        decreases entries@.len() - k,
    {
        assert(all.skip(k as int)[0] == all[k as int]);
        assert(all.skip(k as int).drop_first() =~= all.skip(k + 1));
        if str_eq(entries[k].0.as_str(), path) {
            return entries[k].1;
        }
        k = k + 1;
    }
    assert(all.skip(k as int) =~= Seq::<(Seq<char>, Option<bool>)>::empty());
    None
}

/// The trust decision that applies to `cwd`: the one saved for the directory
/// itself or for its nearest ancestor; `null` entries decide nothing.
pub fn nearest_trust_decision(entries: &Vec<(String, Option<bool>)>, cwd: &str) -> (r: Option<bool>)
    ensures
        r == nearest_decision_spec(entries_view(entries@), cwd@),
{
    let mut current = cwd.to_owned();
    loop
        invariant
            nearest_decision_spec(entries_view(entries@), cwd@) == nearest_decision_spec(
                entries_view(entries@),
                current@,
            ),
        decreases current@.len(),
    {
        match saved_decision_exec(entries, current.as_str()) {
            Some(decision) => {
                return Some(decision);
            },
            None => {},
        }
        match path_parent(current.as_str()) {
            Some(parent) => {
                current = parent;
            },
            None => {
                return None;
            },
        }
    }
}

/// The project resources that make Pi ask for trust: `.pi/<name>` in the
/// workspace for each of these names.
pub open spec fn pi_resource_names() -> Seq<Seq<char>> {
    seq![
        "settings.json"@,
        "extensions"@,
        "skills"@,
        "prompts"@,
        "themes"@,
        "SYSTEM.md"@,
        "APPEND_SYSTEM.md"@,
    ]
}

/// The ancestors of `path`, the path itself first, as `Path::ancestors` yields them.
pub open spec fn ancestors_spec(path: Seq<char>) -> Seq<Seq<char>>
    decreases path.len(),
{
    match spec_path_parent(path) {
        Some(parent) => if parent.len() < path.len() {
            seq![path] + ancestors_spec(parent)
        } else {
            seq![path]
        },
        None => seq![path],
    }
}

/// The paths whose existence makes a workspace need Pi's project trust: the
/// project resources, then `.agents/skills` in every ancestor of the
/// workspace, except the user's own `~/.agents/skills`.
pub open spec fn pi_trust_paths_spec(cwd: Seq<char>, home: Seq<u8>) -> Seq<Seq<char>> {
    let project = pi_resource_names().map_values(
        |name: Seq<char>| spec_path_join(spec_path_join(cwd, ".pi"@), name),
    );
    let skills = ancestors_spec(cwd).map_values(
        |a: Seq<char>| spec_path_join(a, ".agents/skills"@),
    );
    project + skills.filter(
        |s: Seq<char>|
            !(valid_utf8(home) && spec_paths_equal(
                s,
                spec_path_join(decode_utf8(home), ".agents/skills"@),
            )),
    )
}

/// The paths to check for Pi project resources, in the order they are checked.
/// `home` is the raw `HOME` value; a home that is not UTF-8 cannot be equal to
/// any of these paths, so nothing is left out then.
pub fn pi_trust_paths(cwd: &str, home: &[u8]) -> (r: Vec<String>)
    ensures
        r@.map_values(|s: String| s@) == pi_trust_paths_spec(cwd@, home@),
{
    let names = vec![
        "settings.json",
        "extensions",
        "skills",
        "prompts",
        "themes",
        "SYSTEM.md",
        "APPEND_SYSTEM.md",
    ];
    let pi_dir = path_join(cwd, ".pi");
    let mut r: Vec<String> = Vec::new();
    let mut i: usize = 0;
    while i < names.len()
        invariant
            names@.len() == 7,
            forall|k: int| 0 <= k < 7 ==> (#[trigger] names@[k])@ == pi_resource_names()[k],
            pi_dir@ == spec_path_join(cwd@, ".pi"@),
            i <= 7,
            r@.map_values(|s: String| s@) == pi_resource_names().take(i as int).map_values(
                |name: Seq<char>| spec_path_join(spec_path_join(cwd@, ".pi"@), name),
            ),
        decreases 7 - i,
    {
        let ghost old_r = r@;
        let entry = path_join(pi_dir.as_str(), names[i]);
        let ghost entry_view = entry;
        r.push(entry);
        proof {
            old_r.lemma_push_map_commute(|s: String| s@, entry_view);
            pi_resource_names().lemma_take_succ_push(i as int);
            pi_resource_names().take(i as int).lemma_push_map_commute(
                |name: Seq<char>| spec_path_join(spec_path_join(cwd@, ".pi"@), name),
                pi_resource_names()[i as int],
            );
        }
        i = i + 1;
    }
    assert(pi_resource_names().take(7) =~= pi_resource_names());
    let ghost project = r@.map_values(|s: String| s@);
    let user_skills = match utf8_to_string(home) {
        Some(h) => Some(path_join(h.as_str(), ".agents/skills")),
        None => None,
    };
    let ghost keep = |s: Seq<char>|
        !(valid_utf8(home@) && spec_paths_equal(
            s,
            spec_path_join(decode_utf8(home@), ".agents/skills"@),
        ));
    let mut current = cwd.to_owned();
    let ghost mut seen: Seq<Seq<char>> = Seq::empty();
    loop
        invariant
            project == pi_resource_names().map_values(
                |name: Seq<char>| spec_path_join(spec_path_join(cwd@, ".pi"@), name),
            ),
            seen + ancestors_spec(current@) == ancestors_spec(cwd@),
            r@.map_values(|s: String| s@) == project + seen.map_values(
                |a: Seq<char>| spec_path_join(a, ".agents/skills"@),
            ).filter(keep),
            keep == (|s: Seq<char>|
                !(valid_utf8(home@) && spec_paths_equal(
                    s,
                    spec_path_join(decode_utf8(home@), ".agents/skills"@),
                ))),
            match user_skills {
                Some(u) => valid_utf8(home@) && u@ == spec_path_join(
                    decode_utf8(home@),
                    ".agents/skills"@,
                ),
                None => !valid_utf8(home@),
            },
        decreases current@.len(),
    {
        let skills = path_join(current.as_str(), ".agents/skills");
        let excluded = match &user_skills {
            Some(u) => paths_equal(skills.as_str(), u.as_str()),
            None => false,
        };
        let ghost before = r@;
        let ghost skills_view = skills;
        let ghost mapped = seen.map_values(|a: Seq<char>| spec_path_join(a, ".agents/skills"@));
        if !excluded {
            r.push(skills);
        }
        proof {
            let next_seen = seen.push(current@);
            let next_mapped = next_seen.map_values(
                |a: Seq<char>| spec_path_join(a, ".agents/skills"@),
            );
            seen.lemma_push_map_commute(
                |a: Seq<char>| spec_path_join(a, ".agents/skills"@),
                current@,
            );
            mapped.lemma_filter_push(spec_path_join(current@, ".agents/skills"@), keep);
            if !excluded {
                before.lemma_push_map_commute(|s: String| s@, skills_view);
            }
            assert(r@.map_values(|s: String| s@) =~= project + next_mapped.filter(keep));
            seen = next_seen;
        }
        match path_parent(current.as_str()) {
            Some(parent) => {
                assert(ancestors_spec(current@) =~= seq![current@] + ancestors_spec(parent@));
                assert(seen + ancestors_spec(parent@) =~= (seen.drop_last() + seq![current@])
                    + ancestors_spec(parent@));
                current = parent;
            },
            None => {
                assert(ancestors_spec(current@) == seq![current@]);
                assert(seen =~= ancestors_spec(cwd@));
                return r;
            },
        }
    }
}

pub open spec fn not_required_message() -> Seq<char> {
    "未发现需要 Pi 项目信任的本地资源。"@
}

pub open spec fn saved_trusted_message() -> Seq<char> {
    "Pi 已保存对此目录或其父目录的信任决定。"@
}

pub open spec fn saved_denied_message() -> Seq<char> {
    "Pi 已保存对此目录或其父目录的不信任决定。"@
}

pub open spec fn policy_always_message() -> Seq<char> {
    "Pi 的默认项目策略为始终信任。"@
}

pub open spec fn policy_never_message() -> Seq<char> {
    "Pi 的默认项目策略为不信任。"@
}

pub open spec fn policy_ask_message() -> Seq<char> {
    "Pi 将在原生 TUI 中请求项目信任决定；Baibo 不会代为修改配置。"@
}

/// What `defaultProjectTrust` decides: an absent value means `ask`; a value
/// other than `always`, `never` or `ask` leaves the state unknown (`None`).
pub open spec fn policy_outcome(settings: Option<DefaultTrustSetting>) -> Option<
    (PiProjectTrustState, Seq<char>),
> {
    let policy = match settings {
        None => None,
        Some(DefaultTrustSetting::NotText) => None,
        Some(DefaultTrustSetting::Absent) => Some("ask"@),
        Some(DefaultTrustSetting::Text(p)) => Some(p@),
    };
    match policy {
        None => None,
        Some(p) => if p == "always"@ {
            Some((PiProjectTrustState::Trusted, policy_always_message()))
        } else if p == "never"@ {
            Some((PiProjectTrustState::Denied, policy_never_message()))
        } else if p == "ask"@ {
            Some((PiProjectTrustState::PromptRequired, policy_ask_message()))
        } else {
            None
        },
    }
}

pub open spec fn trust_view(trust: Option<Vec<(String, Option<bool>)>>) -> Option<
    Seq<(Seq<char>, Option<bool>)>,
> {
    match trust {
        Some(entries) => Some(entries_view(entries@)),
        None => None,
    }
}

/// The state and message of the trust answer, or `None` where Pi's trust
/// cannot be read reliably.
pub open spec fn pi_trust_outcome(
    home_known: bool,
    has_resources: bool,
    trust: Option<Seq<(Seq<char>, Option<bool>)>>,
    cwd: Seq<char>,
    settings: Option<DefaultTrustSetting>,
) -> Option<(PiProjectTrustState, Seq<char>)> {
    if !home_known {
        None
    } else if !has_resources {
        Some((PiProjectTrustState::NotRequired, not_required_message()))
    } else {
        match trust {
            None => None,
            Some(entries) => match nearest_decision_spec(entries, cwd) {
                Some(true) => Some((PiProjectTrustState::Trusted, saved_trusted_message())),
                Some(false) => Some((PiProjectTrustState::Denied, saved_denied_message())),
                None => policy_outcome(settings),
            },
        }
    }
}

/// Pi's project-trust state for a workspace, read without changing any Pi
/// file. `home_known` says whether the login environment sets `HOME`;
/// `has_resources` whether one of `pi_trust_paths` exists; `trust` holds the
/// entries of Pi's `trust.json` (an absent file has none), or `None` when the
/// file cannot be read or holds something other than `true`, `false` or
/// `null` values; `settings` holds `defaultProjectTrust` from Pi's
/// `settings.json`, or `None` when that file cannot be read.
pub fn resolve_pi_trust(
    workspace_id: WorkspaceId,
    cwd: &str,
    home_known: bool,
    has_resources: bool,
    trust: Option<Vec<(String, Option<bool>)>>,
    settings: Option<DefaultTrustSetting>,
) -> (r: Result<PiProjectTrust, ProviderError>)
    ensures
        match pi_trust_outcome(home_known, has_resources, trust_view(trust), cwd@, settings) {
            None => r matches Err(ProviderError::PiTrustUnknown),
            Some((state, message)) => r matches Ok(t) && t.workspace_id == workspace_id
                && t.state == state && t.message@ == message,
        },
{
    if !home_known {
        return Err(ProviderError::PiTrustUnknown);
    }
    if !has_resources {
        return Ok(
            PiProjectTrust {
                workspace_id,
                state: PiProjectTrustState::NotRequired,
                message: "未发现需要 Pi 项目信任的本地资源。".to_owned(),
            },
        );
    }
    let entries = match trust {
        Some(entries) => entries,
        None => {
            return Err(ProviderError::PiTrustUnknown);
        },
    };
    match nearest_trust_decision(&entries, cwd) {
        Some(decision) => {
            return Ok(
                PiProjectTrust {
                    workspace_id,
                    state: if decision {
                        PiProjectTrustState::Trusted
                    } else {
                        PiProjectTrustState::Denied
                    },
                    message: if decision {
                        "Pi 已保存对此目录或其父目录的信任决定。".to_owned()
                    } else {
                        "Pi 已保存对此目录或其父目录的不信任决定。".to_owned()
                    },
                },
            );
        },
        None => {},
    }
    let policy = match settings {
        None => {
            return Err(ProviderError::PiTrustUnknown);
        },
        Some(DefaultTrustSetting::NotText) => {
            return Err(ProviderError::PiTrustUnknown);
        },
        Some(DefaultTrustSetting::Absent) => "ask".to_owned(),
        Some(DefaultTrustSetting::Text(policy)) => policy,
    };
    proof {
        reveal_strlit("ask");
        reveal_strlit("always");
        reveal_strlit("never");
    }
    if str_eq(policy.as_str(), "always") {
        Ok(
            PiProjectTrust {
                workspace_id,
                state: PiProjectTrustState::Trusted,
                message: "Pi 的默认项目策略为始终信任。".to_owned(),
            },
        )
    } else if str_eq(policy.as_str(), "never") {
        Ok(
            PiProjectTrust {
                workspace_id,
                state: PiProjectTrustState::Denied,
                message: "Pi 的默认项目策略为不信任。".to_owned(),
            },
        )
    } else if str_eq(policy.as_str(), "ask") {
        Ok(
            PiProjectTrust {
                workspace_id,
                state: PiProjectTrustState::PromptRequired,
                message: "Pi 将在原生 TUI 中请求项目信任决定；Baibo 不会代为修改配置。".to_owned(),
            },
        )
    } else {
        Err(ProviderError::PiTrustUnknown)
    }
}

/// What the trust query reports: when Pi's files cannot be read reliably,
/// the state is `Unknown` and the user is asked to decide in Pi itself; other
/// outcomes pass through.
pub fn pi_trust_or_unknown(
    workspace_id: &WorkspaceId,
    result: Result<PiProjectTrust, ProviderError>,
) -> (r: Result<PiProjectTrust, ProviderError>)
    ensures
        result matches Err(ProviderError::PiTrustUnknown) ==> (r matches Ok(t) && t.workspace_id
            == *workspace_id && t.state == PiProjectTrustState::Unknown),
        !(result matches Err(ProviderError::PiTrustUnknown)) ==> r == result,
{
    match result {
        Err(ProviderError::PiTrustUnknown) => Ok(
            PiProjectTrust {
                workspace_id: workspace_id.clone(),
                state: PiProjectTrustState::Unknown,
                message: "无法可靠读取 Pi trust/settings；请在 Pi TUI 中确认。".to_owned(),
            },
        ),
        other => other,
    }
}

/// What decides Pi's project trust. Without `HOME` nothing can be read; a
/// workspace without Pi resources needs no trust. Otherwise a saved decision
/// for the directory or its nearest ancestor wins over every policy; when
/// none applies, the text of `defaultProjectTrust` alone fixes the answer:
/// `always` trusts, `never` denies, `ask` (or no setting) leaves it to Pi's
/// prompt, and any other text, or a value that is not text, leaves the trust
/// unknown.
pub proof fn lemma_trust_answer(
    home_known: bool,
    has_resources: bool,
    entries: Seq<(Seq<char>, Option<bool>)>,
    cwd: Seq<char>,
    settings: Option<DefaultTrustSetting>,
)
    ensures
        !home_known ==> pi_trust_outcome(home_known, has_resources, Some(entries), cwd, settings) is None,
        home_known && !has_resources ==> pi_trust_outcome(home_known, has_resources, Some(entries), cwd, settings)
            == Some((PiProjectTrustState::NotRequired, "未发现需要 Pi 项目信任的本地资源。"@)),
        home_known && has_resources ==> pi_trust_outcome(home_known, has_resources, None, cwd, settings) is None,
        nearest_decision_spec(entries, cwd) == Some(true) ==> pi_trust_outcome(true, true, Some(entries), cwd, settings)
            == Some((PiProjectTrustState::Trusted, "Pi 已保存对此目录或其父目录的信任决定。"@)),
        nearest_decision_spec(entries, cwd) == Some(false) ==> pi_trust_outcome(true, true, Some(entries), cwd, settings)
            == Some((PiProjectTrustState::Denied, "Pi 已保存对此目录或其父目录的不信任决定。"@)),
        nearest_decision_spec(entries, cwd) is None ==> {
            let outcome = pi_trust_outcome(true, true, Some(entries), cwd, settings);
            &&& (settings matches Some(DefaultTrustSetting::Text(p)) && p@ == "always"@) ==> outcome
                == Some((PiProjectTrustState::Trusted, "Pi 的默认项目策略为始终信任。"@))
            &&& (settings matches Some(DefaultTrustSetting::Text(p)) && p@ == "never"@) ==> outcome
                == Some((PiProjectTrustState::Denied, "Pi 的默认项目策略为不信任。"@))
            &&& (settings matches Some(DefaultTrustSetting::Text(p)) && p@ == "ask"@) ==> outcome
                == Some((PiProjectTrustState::PromptRequired, "Pi 将在原生 TUI 中请求项目信任决定；Baibo 不会代为修改配置。"@))
            &&& settings matches Some(DefaultTrustSetting::Absent) ==> outcome
                == Some((PiProjectTrustState::PromptRequired, "Pi 将在原生 TUI 中请求项目信任决定；Baibo 不会代为修改配置。"@))
            &&& (settings matches Some(DefaultTrustSetting::Text(p)) && p@ != "always"@ && p@ != "never"@
                && p@ != "ask"@) ==> outcome is None
            &&& (settings is None || settings matches Some(DefaultTrustSetting::NotText)) ==> outcome is None
        },
{
    reveal_strlit("always");
    reveal_strlit("never");
    reveal_strlit("ask");
    assert("always"@.len() != "never"@.len());
    assert("always"@.len() != "ask"@.len());
    assert("never"@.len() != "ask"@.len());
}

} // verus!
