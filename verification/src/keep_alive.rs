//! Which image a new keep-alive VM boots from. Creating images, hashing
//! files and starting the VM happen outside; this module decides the image
//! names and paths, assembles the custom image description, and reads the
//! VM's address from a command's output.
use vstd::prelude::*;
use crate::handlers::{decode_lossy, utf8_lossy};
use crate::text::{chars_of, string_from_chars, trim_chars, trim_seq};

verus! {

/// The stock image used when no custom image is given.
pub const DEFAULT_IMAGE_NAME: &'static str = "debian-13-generic-amd64";

/// The kernel expected beside a custom image.
pub const KERNEL_FILE: &'static str = "vmlinuz-6.12.85+deb13-amd64";

/// The initrd expected beside a custom image.
pub const INITRD_FILE: &'static str = "initrd.img-6.12.85+deb13-amd64";

/// The command that prints the VM's first IP address.
pub const IP_COMMAND: &'static str = "hostname -I | awk '{print $1}'";

/// What std's `Path::parent` gives for a path (as text).
pub uninterp spec fn path_parent_of(path: Seq<char>) -> Option<Seq<char>>;

/// What std's `Path::join` gives for a directory and a file name (as text).
pub uninterp spec fn path_joined(dir: Seq<char>, file: Seq<char>) -> Seq<char>;

/// The path without its final component, if it has one (std's
/// `Path::parent`, converted back to text). The result is named
/// `path_parent_of`; what the parent of a given path is stays unsaid.
#[verifier::external_body]
pub fn path_parent(path: &str) -> (r: Option<String>)
    ensures
        match r {
            Some(d) => path_parent_of(path@) == Some(d@),
            None => path_parent_of(path@) is None,
        },
{
    match std::path::Path::new(path).parent() {
        Some(p) => Some(p.to_string_lossy().into_owned()),
        None => None,
    }
}

/// `file` adjoined to `dir` (std's `Path::join`, converted back to text).
/// The result is named `path_joined`; how the two are combined stays unsaid.
#[verifier::external_body]
pub fn path_join(dir: &str, file: &str) -> (r: String)
    ensures
        r@ == path_joined(dir@, file@),
{
    std::path::Path::new(dir).join(file).to_string_lossy().into_owned()
}

/// The directory that holds an image: its parent, or `.` when it has none.
pub open spec fn image_dir_of(path: Seq<char>) -> Seq<char> {
    match path_parent_of(path) {
        Some(d) => d,
        None => "."@,
    }
}

/// A custom image with the kernel and initrd expected beside it.
pub struct CustomImagePlan {
    /// The name under which the image is registered: `custom-<vm name>`.
    pub name: String,
    pub image_path: String,
    pub kernel_path: String,
    pub initrd_path: String,
}

/// The image a VM boots from.
pub enum ImagePlan {
    /// The stock Debian image, by name.
    Stock { name: String },
    Custom(CustomImagePlan),
}

/// The description of a custom image handed to the image builder: each
/// boot file is given only when it exists, with its hash when it could be
/// computed.
pub struct CustomImageSpec {
    pub name: String,
    pub image_path: String,
    pub image_hash: String,
    pub kernel_path: Option<String>,
    pub kernel_hash: Option<String>,
    pub initrd_path: Option<String>,
    pub initrd_hash: Option<String>,
}

/// The views of two optional strings agree.
pub open spec fn same_opt_text(a: Option<String>, b: Option<String>) -> bool {
    match (a, b) {
        (Some(x), Some(y)) => x@ == y@,
        (None, None) => true,
        _ => false,
    }
}

fn owned(s: &str) -> (r: String)
    ensures
        r@ == s@,
{
    let mut r = String::new();
    r.append(s);
    r
}

/// The image for a VM named `vm_name`: the stock image, or the custom image
/// at the given path with the kernel and initrd looked for in its directory.
pub fn image_plan(vm_name: &str, custom_image_path: Option<String>) -> (p: ImagePlan)
    ensures
        match custom_image_path {
            None => p matches ImagePlan::Stock { name } && name@ == DEFAULT_IMAGE_NAME@,
            Some(path) => p matches ImagePlan::Custom(c) && {
                &&& c.name@ == "custom-"@ + vm_name@
                &&& c.image_path@ == path@
                &&& c.kernel_path@ == path_joined(image_dir_of(path@), KERNEL_FILE@)
                &&& c.initrd_path@ == path_joined(image_dir_of(path@), INITRD_FILE@)
            },
        },
{
    match custom_image_path {
        None => ImagePlan::Stock { name: owned(DEFAULT_IMAGE_NAME) },
        Some(path) => {
            let dir = match path_parent(path.as_str()) {
                Some(d) => d,
                None => owned("."),
            };
            let kernel_path = path_join(dir.as_str(), KERNEL_FILE);
            let initrd_path = path_join(dir.as_str(), INITRD_FILE);
            let mut name = String::new();
            name.append("custom-");
            name.append(vm_name);
            ImagePlan::Custom(CustomImagePlan { name, image_path: path, kernel_path, initrd_path })
        },
    }
}

/// Assembles the custom image description from the plan, the image's hash,
/// whether the kernel and initrd exist, and their hashes.
pub fn custom_image_spec(
    plan: CustomImagePlan,
    image_hash: String,
    kernel_exists: bool,
    kernel_hash: Option<String>,
    initrd_exists: bool,
    initrd_hash: Option<String>,
) -> (s: CustomImageSpec)
    ensures
        s.name@ == plan.name@,
        s.image_path@ == plan.image_path@,
        s.image_hash@ == image_hash@,
        same_opt_text(s.kernel_path, if kernel_exists { Some(plan.kernel_path) } else { None }),
        same_opt_text(s.kernel_hash, if kernel_exists { kernel_hash } else { None }),
        same_opt_text(s.initrd_path, if initrd_exists { Some(plan.initrd_path) } else { None }),
        same_opt_text(s.initrd_hash, if initrd_exists { initrd_hash } else { None }),
{
    let CustomImagePlan { name, image_path, kernel_path, initrd_path } = plan;
    let (kernel_path, kernel_hash) = if kernel_exists {
        (Some(kernel_path), kernel_hash)
    } else {
        (None, None)
    };
    let (initrd_path, initrd_hash) = if initrd_exists {
        (Some(initrd_path), initrd_hash)
    } else {
        (None, None)
    };
    CustomImageSpec { name, image_path, image_hash, kernel_path, kernel_hash, initrd_path, initrd_hash }
}

/// The VM's IP address from the output of `IP_COMMAND`: the output decoded
/// and trimmed, or `None` when nothing is left.
pub fn ip_from_output(stdout: &[u8]) -> (ip: Option<String>)
    ensures
        match ip {
            Some(a) => a@ == trim_seq(utf8_lossy(stdout@)) && a@.len() > 0,
            None => trim_seq(utf8_lossy(stdout@)).len() == 0,
        },
{
    let text = decode_lossy(stdout);
    let cs = chars_of(text.as_str());
    let t = trim_chars(&cs);
    if t.len() == 0 {
        None
    } else {
        Some(string_from_chars(t.as_slice()))
    }
}

} // verus!
