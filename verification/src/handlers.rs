//! What each HTTP endpoint answers. The server plumbing (routing, fetching
//! state, talking to the VM, serialising to JSON) happens outside; these
//! functions decide the status code and the body from what was fetched.
use vstd::prelude::*;
use crate::state::{VmInfo, elapsed};
use crate::logs::{format_logs, format_logs_seq};

verus! {

/// HTTP 200 OK.
pub const STATUS_OK: u16 = 200;

/// HTTP 404 Not Found.
pub const STATUS_NOT_FOUND: u16 = 404;

/// HTTP 500 Internal Server Error.
pub const STATUS_INTERNAL_ERROR: u16 = 500;

/// Where the Scorpio configuration lives inside the VM.
pub const SCORPIO_TOML_PATH: &'static str = "/home/orion/orion-runner/scorpio.toml";

/// Image parameters that can be passed via the webhook to override the
/// configured image.
pub struct ImageParams {
    pub path: Option<String>,
    pub url: Option<String>,
    pub digest: Option<String>,
    pub disk_gb: Option<u32>,
    pub cpus: Option<u32>,
    pub memory_mb: Option<u32>,
}

/// The answer of the webhook endpoint.
pub struct WebhookResponse {
    pub status: String,
    pub vm_id: Option<String>,
    pub error: Option<String>,
    /// Path to the log file (not the contents).
    pub orion_log_file: Option<String>,
}

/// The request that GitHub Actions posts to the webhook.
pub struct GithubWebhookPayload {
    pub action: Option<String>,
    /// Target environment, such as "aws-gitmega" (required).
    pub target: String,
    /// Override image path (local qcow2 file).
    pub image_path: Option<String>,
    /// Override image URL (remote HTTPS).
    pub image_url: Option<String>,
    /// Digest for the image: "sha256:..." or "sha512:...".
    pub image_digest: Option<String>,
    /// VM disk size in GB.
    pub image_disk_gb: Option<u32>,
    /// Number of vCPUs.
    pub image_cpus: Option<u32>,
    /// VM memory in MB.
    pub image_memory_mb: Option<u32>,
}

/// A JSON body `{"status": .., "error": ..}`.
pub struct ErrorBody {
    pub status: String,
    pub error: String,
}

/// A JSON body `{"status": .., "service": ..}`.
pub struct HealthBody {
    pub status: String,
    pub service: String,
}

/// A JSON body `{"status": .., "message": ..}`.
pub struct MessageBody {
    pub status: String,
    pub message: String,
}

/// A JSON body `{"status": .., "logs": ..}`.
pub struct LiveLogsBody {
    pub status: String,
    pub logs: String,
}

/// A JSON body `{"status": .., "path": .., "content": ..}`.
pub struct ScorpioConfigBody {
    pub status: String,
    pub path: String,
    pub content: String,
}

/// The body of the status endpoint.
pub enum StatusBody {
    /// `{"status": "running", "vm_id", "vm_ip", "uptime_secs", "log_file"}`.
    Running { vm_id: String, vm_ip: Option<String>, uptime_secs: u64, log_file: Option<String> },
    /// `{"status": "no_vm", "vm_id": null}`.
    NoVm,
}

/// An answer: a body of the endpoint's own kind, or an error body with its
/// status code.
pub enum Reply<T> {
    Success(T),
    Failed(u16, ErrorBody),
}

/// The answer of the formatted-log endpoint: an HTML page, or an error.
pub enum LogsReply {
    Html(String),
    Failed(u16, ErrorBody),
}

// ---------------------------------------------------------------------------
// Specifications
// ---------------------------------------------------------------------------

/// The error body with the given status and message.
pub open spec fn error_body_is(b: ErrorBody, status: Seq<char>, error: Seq<char>) -> bool {
    b.status@ == status && b.error@ == error
}

/// The views of two optional strings agree.
pub open spec fn same_opt(a: Option<String>, b: Option<String>) -> bool {
    match (a, b) {
        (Some(x), Some(y)) => x@ == y@,
        (None, None) => true,
        _ => false,
    }
}

/// What std's `String::from_utf8_lossy` makes of `bytes`.
pub uninterp spec fn utf8_lossy(bytes: Seq<u8>) -> Seq<char>;

// ---------------------------------------------------------------------------
// Trusted std call
// ---------------------------------------------------------------------------

/// Decodes `bytes` as UTF-8, replacing each invalid sequence by U+FFFD
/// (std's `String::from_utf8_lossy`, made owned). The result is named
/// `utf8_lossy`; std documents that valid UTF-8 comes back unchanged. How
/// invalid sequences are replaced is left unsaid here.
#[verifier::external_body]
pub fn decode_lossy(bytes: &[u8]) -> (s: String)
    ensures
        s@ == utf8_lossy(bytes@),
        vstd::utf8::valid_utf8(bytes@) ==> s@ == vstd::utf8::decode_utf8(bytes@),
{
    String::from_utf8_lossy(bytes).into_owned()
}

// ---------------------------------------------------------------------------
// Implementations
// ---------------------------------------------------------------------------

fn owned(s: &str) -> (r: String)
    ensures
        r@ == s@,
{
    let mut r = String::new();
    r.append(s);
    r
}

fn clone_opt(o: &Option<String>) -> (r: Option<String>)
    ensures
        same_opt(r, *o),
{
    match o {
        Some(s) => Some(s.clone()),
        None => None,
    }
}

fn error_body(status: &str, error: &str) -> (b: ErrorBody)
    ensures
        error_body_is(b, status@, error@),
{
    ErrorBody { status: owned(status), error: owned(error) }
}

impl ImageParams {
    /// The image overrides that a webhook request carries.
    pub fn from_payload(payload: &GithubWebhookPayload) -> (p: ImageParams)
        ensures
            same_opt(p.path, payload.image_path),
            same_opt(p.url, payload.image_url),
            same_opt(p.digest, payload.image_digest),
            p.disk_gb == payload.image_disk_gb,
            p.cpus == payload.image_cpus,
            p.memory_mb == payload.image_memory_mb,
    {
        ImageParams {
            path: clone_opt(&payload.image_path),
            url: clone_opt(&payload.image_url),
            digest: clone_opt(&payload.image_digest),
            disk_gb: payload.image_disk_gb,
            cpus: payload.image_cpus,
            memory_mb: payload.image_memory_mb,
        }
    }
}

/// The answer to `GET /webhook`: status "ok" and nothing else.
pub fn webhook_get_response() -> (r: WebhookResponse)
    ensures
        r.status@ == "ok"@,
        r.vm_id is None,
        r.error is None,
        r.orion_log_file is None,
{
    WebhookResponse { status: owned("ok"), vm_id: None, error: None, orion_log_file: None }
}

/// The answer to `POST /webhook`, given how the deployment task ended: the
/// outer error is a task that could not be joined, the inner one a failed
/// deployment; on success the new VM's id is reported.
pub fn webhook_post_reply(outcome: Result<Result<String, String>, String>) -> (r: (
    u16,
    WebhookResponse,
))
    ensures
        r.1.orion_log_file is None,
        match outcome {
            Ok(Ok(vm_id)) => {
                &&& r.0 == STATUS_OK
                &&& r.1.status@ == "ok"@
                &&& same_opt(r.1.vm_id, Some(vm_id))
                &&& r.1.error is None
            },
            Ok(Err(e)) | Err(e) => {
                &&& r.0 == STATUS_INTERNAL_ERROR
                &&& r.1.status@ == "error"@
                &&& r.1.vm_id is None
                &&& same_opt(r.1.error, Some(e))
            },
        },
{
    match outcome {
        Ok(Ok(vm_id)) => (
            STATUS_OK,
            WebhookResponse {
                status: owned("ok"),
                vm_id: Some(vm_id),
                error: None,
                orion_log_file: None,
            },
        ),
        Ok(Err(e)) | Err(e) => (
            STATUS_INTERNAL_ERROR,
            WebhookResponse {
                status: owned("error"),
                vm_id: None,
                error: Some(e),
                orion_log_file: None,
            },
        ),
    }
}

/// The answer to `GET /health`.
pub fn health_body() -> (b: HealthBody)
    ensures
        b.status@ == "healthy"@,
        b.service@ == "orion-scheduler"@,
{
    HealthBody { status: owned("healthy"), service: owned("orion-scheduler") }
}

/// The answer to `GET /status` when the VM has been up `uptime_secs` seconds.
pub fn status_body_with_uptime(vm: Option<&VmInfo>, uptime_secs: u64) -> (b: StatusBody)
    ensures
        match (vm, b) {
            (None, StatusBody::NoVm) => true,
            (Some(v), StatusBody::Running { vm_id, vm_ip, uptime_secs: u, log_file }) => {
                &&& vm_id@ == v.id@
                &&& same_opt(vm_ip, v.ip)
                &&& u == uptime_secs
                &&& same_opt(log_file, v.log_file)
            },
            _ => false,
        },
{
    match vm {
        None => StatusBody::NoVm,
        Some(v) => StatusBody::Running {
            vm_id: v.id.clone(),
            vm_ip: clone_opt(&v.ip),
            uptime_secs,
            log_file: clone_opt(&v.log_file),
        },
    }
}

/// The answer to `GET /status`: the VM's details with the seconds since it
/// was created, or "no_vm". The uptime is read from the clock.
pub fn status_body(vm: Option<&VmInfo>) -> (b: StatusBody)
    ensures
        match (vm, b) {
            (None, StatusBody::NoVm) => true,
            (Some(v), StatusBody::Running { vm_id, vm_ip, uptime_secs: _, log_file }) => {
                &&& vm_id@ == v.id@
                &&& same_opt(vm_ip, v.ip)
                &&& same_opt(log_file, v.log_file)
            },
            _ => false,
        },
{
    match vm {
        None => StatusBody::NoVm,
        Some(v) => {
            let uptime = elapsed(&v.created_at).as_secs();
            status_body_with_uptime(Some(v), uptime)
        },
    }
}

/// For `GET /logs/orion`: the log file to read, or the answer when there is
/// none (no VM, or a VM without a log file; both 404).
pub fn logs_file_to_read(vm: Option<&VmInfo>) -> (r: Result<String, LogsReply>)
    ensures
        match vm {
            None => r matches Err(LogsReply::Failed(code, body)) && code == STATUS_NOT_FOUND
                && error_body_is(body, "no_vm"@, "No VM is currently running"@),
            Some(v) => match v.log_file {
                Some(f) => r matches Ok(path) && path@ == f@,
                None => r matches Err(LogsReply::Failed(code, body)) && code == STATUS_NOT_FOUND
                    && error_body_is(body, "no_log_file"@, "No log file available for this VM"@),
            },
        },
{
    match vm {
        None => Err(
            LogsReply::Failed(
                STATUS_NOT_FOUND,
                error_body("no_vm", "No VM is currently running"),
            ),
        ),
        Some(v) => match &v.log_file {
            Some(f) => Ok(f.clone()),
            None => Err(
                LogsReply::Failed(
                    STATUS_NOT_FOUND,
                    error_body("no_log_file", "No log file available for this VM"),
                ),
            ),
        },
    }
}

/// For `GET /logs/orion`: the answer once the log file was read (its text)
/// or could not be (the error message).
pub fn logs_reply_after_read(read: Result<String, String>) -> (r: LogsReply)
    ensures
        match read {
            Ok(contents) => r matches LogsReply::Html(page) && page@ == format_logs_seq(
                contents@,
            ),
            Err(e) => r matches LogsReply::Failed(code, body) && code == STATUS_INTERNAL_ERROR
                && error_body_is(body, "error"@, "Failed to read log file: "@ + e@),
        },
{
    match read {
        Ok(contents) => LogsReply::Html(format_logs(contents.as_str())),
        Err(e) => {
            let mut msg = String::new();
            msg.append("Failed to read log file: ");
            msg.append(e.as_str());
            LogsReply::Failed(STATUS_INTERNAL_ERROR, ErrorBody { status: owned("error"), error: msg })
        },
    }
}

/// The answer to `GET /logs/orion/live`, given the fetched logs or the error.
pub fn live_logs_reply(fetched: Result<String, String>) -> (r: Reply<LiveLogsBody>)
    ensures
        match fetched {
            Ok(logs) => r matches Reply::Success(b) && b.status@ == "ok"@ && b.logs@ == logs@,
            Err(e) => r matches Reply::Failed(code, body) && code == STATUS_INTERNAL_ERROR
                && error_body_is(body, "error"@, e@),
        },
{
    match fetched {
        Ok(logs) => Reply::Success(LiveLogsBody { status: owned("ok"), logs }),
        Err(e) => Reply::Failed(STATUS_INTERNAL_ERROR, ErrorBody { status: owned("error"), error: e }),
    }
}

/// The error answer of `GET /scorpio/status` when the status could not be
/// collected.
pub fn scorpio_status_error(message: String) -> (r: (u16, ErrorBody))
    ensures
        r.0 == STATUS_INTERNAL_ERROR,
        error_body_is(r.1, "error"@, message@),
{
    (STATUS_INTERNAL_ERROR, ErrorBody { status: owned("error"), error: message })
}

/// The command that prints the Scorpio configuration inside the VM.
pub fn scorpio_config_command() -> (c: String)
    ensures
        c@ == "cat "@ + SCORPIO_TOML_PATH@,
{
    let mut c = String::new();
    c.append("cat ");
    c.append(SCORPIO_TOML_PATH);
    c
}

/// The answer to `GET /scorpio/config`: `None` when no VM is running,
/// otherwise what running the command gave (its standard output, or the
/// error message).
pub fn scorpio_config_reply(exec: Option<Result<Vec<u8>, String>>) -> (r: Reply<ScorpioConfigBody>)
    ensures
        match exec {
            None => r matches Reply::Failed(code, body) && code == STATUS_INTERNAL_ERROR
                && error_body_is(body, "error"@, "No VM is currently running"@),
            Some(Err(e)) => r matches Reply::Failed(code, body) && code == STATUS_INTERNAL_ERROR
                && error_body_is(body, "error"@, e@),
            Some(Ok(stdout)) => r matches Reply::Success(b) && b.status@ == "ok"@ && b.path@
                == SCORPIO_TOML_PATH@ && b.content@ == utf8_lossy(stdout@),
        },
{
    match exec {
        None => Reply::Failed(STATUS_INTERNAL_ERROR, error_body("error", "No VM is currently running")),
        Some(Err(e)) => Reply::Failed(STATUS_INTERNAL_ERROR, ErrorBody { status: owned("error"), error: e }),
        Some(Ok(stdout)) => {
            let content = decode_lossy(stdout.as_slice());
            Reply::Success(ScorpioConfigBody { status: owned("ok"), path: owned(SCORPIO_TOML_PATH), content })
        },
    }
}

/// The answer to `POST /shutdown`, whether or not a VM was running and
/// whether its shutdown succeeded.
pub fn shutdown_body() -> (b: MessageBody)
    ensures
        b.status@ == "ok"@,
        b.message@ == "Shutdown initiated, VM will be stopped"@,
{
    MessageBody { status: owned("ok"), message: owned("Shutdown initiated, VM will be stopped") }
}

} // verus!
