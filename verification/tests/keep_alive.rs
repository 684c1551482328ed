use orion_scheduler::keep_alive::{
    custom_image_spec, image_plan, ip_from_output, ImagePlan, DEFAULT_IMAGE_NAME, IP_COMMAND,
};

#[test]
fn stock_image_without_custom_path() {
    match image_plan("orion-vm-1", None) {
        ImagePlan::Stock { name } => assert_eq!(name, DEFAULT_IMAGE_NAME),
        ImagePlan::Custom(_) => panic!("expected the stock image"),
    }
}

#[test]
fn custom_image_looks_beside_the_image() {
    match image_plan("vm1", Some("/images/buck2/disk.qcow2".to_string())) {
        ImagePlan::Custom(c) => {
            assert_eq!(c.name, "custom-vm1");
            assert_eq!(c.image_path, "/images/buck2/disk.qcow2");
            assert_eq!(c.kernel_path, "/images/buck2/vmlinuz-6.12.85+deb13-amd64");
            assert_eq!(c.initrd_path, "/images/buck2/initrd.img-6.12.85+deb13-amd64");
        }
        ImagePlan::Stock { .. } => panic!("expected a custom image"),
    }
    match image_plan("vm2", Some("disk.qcow2".to_string())) {
        ImagePlan::Custom(c) => assert_eq!(c.kernel_path, "vmlinuz-6.12.85+deb13-amd64"),
        ImagePlan::Stock { .. } => panic!("expected a custom image"),
    }
    match image_plan("vm3", Some("/".to_string())) {
        ImagePlan::Custom(c) => assert_eq!(c.initrd_path, "./initrd.img-6.12.85+deb13-amd64"),
        ImagePlan::Stock { .. } => panic!("expected a custom image"),
    }
}

#[test]
fn custom_image_spec_keeps_only_existing_files() {
    let plan = match image_plan("vm", Some("/i/d.qcow2".to_string())) {
        ImagePlan::Custom(c) => c,
        ImagePlan::Stock { .. } => panic!("expected a custom image"),
    };
    let s = custom_image_spec(plan, "h0".to_string(), true, Some("hk".to_string()), false, Some("hi".to_string()));
    assert_eq!(s.name, "custom-vm");
    assert_eq!(s.image_path, "/i/d.qcow2");
    assert_eq!(s.image_hash, "h0");
    assert_eq!(s.kernel_path.as_deref(), Some("/i/vmlinuz-6.12.85+deb13-amd64"));
    assert_eq!(s.kernel_hash.as_deref(), Some("hk"));
    assert!(s.initrd_path.is_none());
    assert!(s.initrd_hash.is_none());
}

#[test]
fn ip_from_command_output() {
    assert_eq!(IP_COMMAND, "hostname -I | awk '{print $1}'");
    assert_eq!(ip_from_output(b"192.168.221.87\n").as_deref(), Some("192.168.221.87"));
    assert_eq!(ip_from_output(b"  10.0.0.5  \r\n").as_deref(), Some("10.0.0.5"));
    assert_eq!(ip_from_output(b"\n"), None);
    assert_eq!(ip_from_output(b""), None);
}
