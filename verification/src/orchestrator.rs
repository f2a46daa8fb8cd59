//! The inference engine container: how it is named, which image it runs,
//! what it mounts and which GPUs it is given.

use vstd::prelude::*;

use crate::harness::{push_text, texts};
use crate::text::{owned, push_signed_decimal, signed_decimal, str_eq};

verus! {

/// A GPU request (`--gpus`): driver, device count (-1 for all) and
/// capabilities.
#[derive(Debug)]
pub struct GpuRequest {
    pub driver: String,
    pub count: i64,
    pub capabilities: Vec<Vec<String>>,
}

/// A device mapped into the container.
#[derive(Debug)]
pub struct DeviceMapping {
    pub path_on_host: String,
    pub path_in_container: String,
    pub cgroup_permissions: String,
}

/// What the engine container is created with.
#[derive(Debug)]
pub struct EngineSpec {
    pub container_name: String,
    pub image: String,
    pub binds: Vec<String>,
    pub gpu_requests: Vec<GpuRequest>,
    pub devices: Vec<DeviceMapping>,
    pub cmd: Vec<String>,
}

/// The image for a GPU type: the ROCm build for `amd`, the CUDA build
/// otherwise.
pub open spec fn image_for(gpu_type: Seq<char>) -> Seq<char> {
    if gpu_type == "amd"@ {
        "backyard:llama-rocm"@
    } else {
        "backyard:llama-cuda"@
    }
}

/// The GPU requests for a GPU type: every NVIDIA GPU for `nvidia`.
pub open spec fn gpu_requests_for(gpu_type: Seq<char>) -> Seq<(Seq<char>, i64, Seq<Seq<Seq<char>>>)> {
    if gpu_type == "nvidia"@ {
        seq![("nvidia"@, -1i64, seq![seq!["gpu"@]])]
    } else {
        Seq::empty()
    }
}

/// The devices for a GPU type: `/dev/kfd` and `/dev/dri` for `amd`.
pub open spec fn devices_for(gpu_type: Seq<char>) -> Seq<(Seq<char>, Seq<char>, Seq<char>)> {
    if gpu_type == "amd"@ {
        seq![("/dev/kfd"@, "/dev/kfd"@, "rwm"@), ("/dev/dri"@, "/dev/dri"@, "rwm"@)]
    } else {
        Seq::empty()
    }
}

/// The value of a GPU request.
pub open spec fn gpu_request_view(g: GpuRequest) -> (Seq<char>, i64, Seq<Seq<Seq<char>>>) {
    (g.driver@, g.count, g.capabilities@.map_values(|c: Vec<String>| texts(c@)))
}

/// The value of a device mapping.
pub open spec fn device_view(d: DeviceMapping) -> (Seq<char>, Seq<char>, Seq<char>) {
    (d.path_on_host@, d.path_in_container@, d.cgroup_permissions@)
}

/// A device mapped at the same path, with read, write and mknod rights.
fn same_path_device(path: &str) -> (d: DeviceMapping)
    ensures
        device_view(d) == (path@, path@, "rwm"@),
{
    DeviceMapping { path_on_host: owned(path), path_in_container: owned(path), cgroup_permissions: owned("rwm") }
}

/// The engine container for a model: named `backyard-engine-<id>`, the
/// model library mounted read-only at `/models`, llama-server listening on
/// all interfaces at port 8080, with the GPUs of `gpu_type` (`nvidia`,
/// `amd`, anything else: none).
pub fn engine_spec(model_id: i64, model_path: &str, library_path: &str, gpu_type: &str) -> (s: EngineSpec)
    ensures
        s.container_name@ == "backyard-engine-"@ + signed_decimal(model_id as int),
        s.image@ == image_for(gpu_type@),
        texts(s.binds@) == seq![library_path@ + ":/models:ro"@],
        s.gpu_requests@.map_values(|g: GpuRequest| gpu_request_view(g)) == gpu_requests_for(gpu_type@),
        s.devices@.map_values(|d: DeviceMapping| device_view(d)) == devices_for(gpu_type@),
        texts(s.cmd@) == seq![
            "-m"@, "/models/"@ + model_path@, "--host"@, "0.0.0.0"@, "--port"@, "8080"@,
        ],
{
    let mut bind = owned(library_path);
    bind.push_str(":/models:ro");
    let mut binds: Vec<String> = Vec::new();
    binds.push(bind);
    assert(texts(binds@) =~= seq![library_path@ + ":/models:ro"@]);

    let nvidia = str_eq(gpu_type, "nvidia");
    let amd = str_eq(gpu_type, "amd");
    let mut gpu_requests: Vec<GpuRequest> = Vec::new();
    let mut devices: Vec<DeviceMapping> = Vec::new();
    if nvidia {
        let mut caps: Vec<String> = Vec::new();
        push_text(&mut caps, "gpu");
        let ghost cv = texts(caps@);
        assert(cv =~= seq!["gpu"@]);
        let mut all: Vec<Vec<String>> = Vec::new();
        all.push(caps);
        assert(texts(all@[0]@) == cv);
        gpu_requests.push(GpuRequest { driver: owned("nvidia"), count: -1, capabilities: all });
        assert(gpu_requests@.map_values(|g: GpuRequest| gpu_request_view(g)) =~= gpu_requests_for(gpu_type@)) by {
            assert(all@.map_values(|c: Vec<String>| texts(c@)) =~= seq![seq!["gpu"@]]);
        }
    } else {
        assert(gpu_requests@.map_values(|g: GpuRequest| gpu_request_view(g)) =~= gpu_requests_for(gpu_type@));
    }
    if amd {
        devices.push(same_path_device("/dev/kfd"));
        devices.push(same_path_device("/dev/dri"));
    }
    assert(devices@.map_values(|d: DeviceMapping| device_view(d)) =~= devices_for(gpu_type@));

    let mut name = owned("backyard-engine-");
    push_signed_decimal(&mut name, model_id);
    let image = if amd { owned("backyard:llama-rocm") } else { owned("backyard:llama-cuda") };

    let mut model_arg = owned("/models/");
    model_arg.push_str(model_path);
    let mut cmd: Vec<String> = Vec::new();
    push_text(&mut cmd, "-m");
    crate::harness::push_string(&mut cmd, model_arg);
    push_text(&mut cmd, "--host");
    push_text(&mut cmd, "0.0.0.0");
    push_text(&mut cmd, "--port");
    push_text(&mut cmd, "8080");
    EngineSpec { container_name: name, image, binds, gpu_requests, devices, cmd }
}

} // verus!
