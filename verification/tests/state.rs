use orion_scheduler::state::{VmInfo, VmSlots};

fn vm(id: &str) -> VmInfo {
    VmInfo { id: id.to_string(), ip: None, created_at: std::time::Instant::now(), log_file: None }
}

#[test]
fn test_state_set_clear() {
    let state: VmSlots<String> = VmSlots::new();
    assert!(state.get_vm().is_none());
    assert!(state.get_machine().is_none());
}

#[test]
fn slots_return_what_was_written() {
    let mut state: VmSlots<String> = VmSlots::new();
    state.set_vm(vm("orion-vm-1"), "machine-1".to_string());
    assert_eq!(state.get_vm().unwrap().id, "orion-vm-1");
    assert_eq!(state.get_machine().unwrap(), "machine-1");
    state.set_vm(vm("orion-vm-2"), "machine-2".to_string());
    assert_eq!(state.get_vm().unwrap().id, "orion-vm-2");
    assert_eq!(state.get_machine().unwrap(), "machine-2");
    state.clear_vm();
    assert!(state.get_vm().is_none());
    assert!(state.get_machine().is_none());
}

#[test]
fn vm_info_clone_keeps_fields() {
    let mut v = vm("orion-vm-3");
    v.ip = Some("10.0.0.5".to_string());
    v.log_file = Some("/var/log/o.log".to_string());
    let c = v.clone();
    assert_eq!(c.id, "orion-vm-3");
    assert_eq!(c.ip.as_deref(), Some("10.0.0.5"));
    assert_eq!(c.log_file.as_deref(), Some("/var/log/o.log"));
    assert_eq!(c.created_at, v.created_at);
}
