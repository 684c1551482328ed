use orion_scheduler::handlers::{
    health_body, live_logs_reply, logs_file_to_read, logs_reply_after_read, scorpio_config_command,
    scorpio_config_reply, scorpio_status_error, shutdown_body, status_body, status_body_with_uptime,
    webhook_get_response, webhook_post_reply, GithubWebhookPayload, ImageParams, LogsReply, Reply,
    StatusBody, STATUS_INTERNAL_ERROR, STATUS_NOT_FOUND, STATUS_OK,
};
use orion_scheduler::logs::format_logs;
use orion_scheduler::state::VmInfo;

fn vm(log_file: Option<&str>) -> VmInfo {
    VmInfo {
        id: "orion-vm-1".to_string(),
        ip: Some("192.168.221.87".to_string()),
        created_at: std::time::Instant::now(),
        log_file: log_file.map(|s| s.to_string()),
    }
}

#[test]
fn webhook_get_is_ok() {
    let r = webhook_get_response();
    assert_eq!(r.status, "ok");
    assert!(r.vm_id.is_none() && r.error.is_none() && r.orion_log_file.is_none());
}

#[test]
fn webhook_post_outcomes() {
    let (code, r) = webhook_post_reply(Ok(Ok("orion-vm-7".to_string())));
    assert_eq!(code, STATUS_OK);
    assert_eq!(r.status, "ok");
    assert_eq!(r.vm_id.as_deref(), Some("orion-vm-7"));
    assert!(r.error.is_none());
    let (code, r) = webhook_post_reply(Ok(Err("unknown target".to_string())));
    assert_eq!(code, 500);
    assert_eq!(r.status, "error");
    assert_eq!(r.error.as_deref(), Some("unknown target"));
    assert!(r.vm_id.is_none());
    let (code, r) = webhook_post_reply(Err("task panicked".to_string()));
    assert_eq!(code, STATUS_INTERNAL_ERROR);
    assert_eq!(r.error.as_deref(), Some("task panicked"));
}

#[test]
fn image_params_copy_the_payload() {
    let payload = GithubWebhookPayload {
        action: Some("push".to_string()),
        target: "aws-gitmega".to_string(),
        image_path: Some("/img.qcow2".to_string()),
        image_url: None,
        image_digest: Some("sha256:abcd".to_string()),
        image_disk_gb: Some(20),
        image_cpus: Some(4),
        image_memory_mb: Some(8192),
    };
    let p = ImageParams::from_payload(&payload);
    assert_eq!(p.path.as_deref(), Some("/img.qcow2"));
    assert!(p.url.is_none());
    assert_eq!(p.digest.as_deref(), Some("sha256:abcd"));
    assert_eq!((p.disk_gb, p.cpus, p.memory_mb), (Some(20), Some(4), Some(8192)));
}

#[test]
fn health_and_shutdown_bodies() {
    let h = health_body();
    assert_eq!((h.status.as_str(), h.service.as_str()), ("healthy", "orion-scheduler"));
    let s = shutdown_body();
    assert_eq!((s.status.as_str(), s.message.as_str()), ("ok", "Shutdown initiated, VM will be stopped"));
}

#[test]
fn status_bodies() {
    assert!(matches!(status_body(None), StatusBody::NoVm));
    let v = vm(Some("/var/log/orion.log"));
    match status_body_with_uptime(Some(&v), 60) {
        StatusBody::Running { vm_id, vm_ip, uptime_secs, log_file } => {
            assert_eq!(vm_id, "orion-vm-1");
            assert_eq!(vm_ip.as_deref(), Some("192.168.221.87"));
            assert_eq!(uptime_secs, 60);
            assert_eq!(log_file.as_deref(), Some("/var/log/orion.log"));
        }
        StatusBody::NoVm => panic!("expected a running VM"),
    }
    assert!(matches!(status_body(Some(&v)), StatusBody::Running { .. }));
}

#[test]
fn logs_endpoint_steps() {
    match logs_file_to_read(None) {
        Err(LogsReply::Failed(code, body)) => {
            assert_eq!(code, STATUS_NOT_FOUND);
            assert_eq!((body.status.as_str(), body.error.as_str()), ("no_vm", "No VM is currently running"));
        }
        _ => panic!("expected no_vm"),
    }
    match logs_file_to_read(Some(&vm(None))) {
        Err(LogsReply::Failed(code, body)) => {
            assert_eq!(code, 404);
            assert_eq!(body.status, "no_log_file");
            assert_eq!(body.error, "No log file available for this VM");
        }
        _ => panic!("expected no_log_file"),
    }
    match logs_file_to_read(Some(&vm(Some("/l.log")))) {
        Ok(path) => assert_eq!(path, "/l.log"),
        Err(_) => panic!("expected a path"),
    }
    match logs_reply_after_read(Ok("INFO up\n".to_string())) {
        LogsReply::Html(page) => assert_eq!(page, format_logs("INFO up\n")),
        _ => panic!("expected a page"),
    }
    match logs_reply_after_read(Err("No such file".to_string())) {
        LogsReply::Failed(code, body) => {
            assert_eq!(code, 500);
            assert_eq!(body.status, "error");
            assert_eq!(body.error, "Failed to read log file: No such file");
        }
        _ => panic!("expected an error"),
    }
}

#[test]
fn live_logs_and_scorpio_status() {
    match live_logs_reply(Ok("abc".to_string())) {
        Reply::Success(b) => assert_eq!((b.status.as_str(), b.logs.as_str()), ("ok", "abc")),
        Reply::Failed(..) => panic!("expected logs"),
    }
    match live_logs_reply(Err("ssh failed".to_string())) {
        Reply::Failed(code, b) => {
            assert_eq!(code, 500);
            assert_eq!((b.status.as_str(), b.error.as_str()), ("error", "ssh failed"));
        }
        Reply::Success(_) => panic!("expected an error"),
    }
    let (code, b) = scorpio_status_error("boom".to_string());
    assert_eq!(code, 500);
    assert_eq!((b.status.as_str(), b.error.as_str()), ("error", "boom"));
}

#[test]
fn scorpio_config_answers() {
    assert_eq!(scorpio_config_command(), "cat /home/orion/orion-runner/scorpio.toml");
    match scorpio_config_reply(None) {
        Reply::Failed(code, b) => {
            assert_eq!(code, 500);
            assert_eq!(b.error, "No VM is currently running");
        }
        Reply::Success(_) => panic!("expected an error"),
    }
    match scorpio_config_reply(Some(Ok(b"base_url = \"x\"\n".to_vec()))) {
        Reply::Success(b) => {
            assert_eq!(b.status, "ok");
            assert_eq!(b.path, "/home/orion/orion-runner/scorpio.toml");
            assert_eq!(b.content, "base_url = \"x\"\n");
        }
        Reply::Failed(..) => panic!("expected content"),
    }
    match scorpio_config_reply(Some(Ok(vec![b'a', 0xff, b'b']))) {
        Reply::Success(b) => assert_eq!(b.content, "a\u{fffd}b"),
        Reply::Failed(..) => panic!("expected content"),
    }
    match scorpio_config_reply(Some(Err("exec failed".to_string()))) {
        Reply::Failed(_, b) => assert_eq!(b.error, "exec failed"),
        Reply::Success(_) => panic!("expected an error"),
    }
}
