//! The local speech-recognition service: its states and launch settings,
//! the arguments it is started with, install checks, the start-up health
//! polling policy, its log buffer, and the classification of errors and
//! addresses.

use vstd::prelude::*;
use crate::config::strs;
use crate::manifest::{opt_view, HostOs};
use crate::text::{
    ascii_lower, chars_of, contains_run, decimal_string, digits_of, push_digits, push_str,
    starts_with_spec, str_contains, str_eq, string_of, trim_spec, unicode_lowercase,
};

verus! {

/// Lifecycle of the service.
pub enum ASRServiceStatus {
    Stopped,
    Starting,
    Running,
    Stopping,
    Error { message: String },
}

/// How the service is launched.
pub enum ASRLaunchMode {
    /// Its Python environment in an install directory.
    Native { base_dir: String },
    /// A container.
    Docker {
        /// Full image tag.
        image: String,
        /// Host directory whose `models/` is mounted into the container.
        data_dir: String,
        /// Pass `--gpus all`.
        use_gpu: bool,
        /// A `--platform` value, if forced.
        force_platform: Option<String>,
    },
}

/// Start-up settings.
pub struct ASRStartConfig {
    pub launch_mode: ASRLaunchMode,
    pub port: u16,
    pub device: String,
    pub model_size: String,
    pub enable_align: bool,
    pub enable_punc: bool,
    pub model_source: String,
    pub max_segment: u32,
    pub host: String,
}

/// What an install directory check found.
pub struct ASRPathValidation {
    pub valid: bool,
    /// The Python environment is present (portable Python on Windows, a
    /// virtual environment elsewhere).
    pub has_python_env: bool,
    /// `asr-service/app/main.py` exists.
    pub has_main: bool,
    pub python_path: String,
    /// `windows`, `macos` or `linux`.
    pub platform: String,
    /// What to do about what is missing.
    pub setup_hint: Option<String>,
}

/// Health report of the service.
pub struct ASRHealthInfo {
    pub status: String,
    pub device: Option<String>,
    pub model_size: Option<String>,
}

/// Status, health and launch kind together.
pub struct ASRServiceStatusInfo {
    pub status: ASRServiceStatus,
    pub health_info: Option<ASRHealthInfo>,
    /// `native` or `docker` while a launch is active.
    pub launch_kind: Option<String>,
}

/// What was found of the container runtime on this host.
pub struct DockerCapability {
    pub installed: bool,
    pub daemon_running: bool,
    /// `amd64`, `arm64` or `unknown`.
    pub host_arch: String,
    /// `macos`, `windows` or `linux`.
    pub host_platform: String,
    pub version: Option<String>,
    pub hint: Option<String>,
}

/// The service's command-line options for a configuration.
pub open spec fn script_args(c: ASRStartConfig) -> Seq<Seq<char>> {
    seq![
        "--host"@,
        c.host@,
        "--port"@,
        digits_of(c.port as nat),
        "--device"@,
        c.device@,
        "--model-source"@,
        c.model_source@,
        "--max-segment"@,
        digits_of(c.max_segment as nat),
    ] + (if c.model_size@ != "auto"@ {
        seq!["--model-size"@, c.model_size@]
    } else {
        Seq::empty()
    }) + (if c.enable_align {
        seq!["--enable-align"@]
    } else {
        seq!["--no-align"@]
    }) + (if c.enable_punc {
        seq!["--use-punc"@]
    } else {
        Seq::empty()
    })
}

/// The options shared by the native launch and the container entry point.
pub fn build_script_args(config: &ASRStartConfig) -> (r: Vec<String>)
    ensures
        strs(r@) == script_args(*config),
{
    let mut args: Vec<String> = Vec::new();
    args.push("--host".to_owned());
    args.push(config.host.clone());
    args.push("--port".to_owned());
    args.push(decimal_string(config.port as u64));
    args.push("--device".to_owned());
    args.push(config.device.clone());
    args.push("--model-source".to_owned());
    args.push(config.model_source.clone());
    args.push("--max-segment".to_owned());
    args.push(decimal_string(config.max_segment as u64));
    let ghost base = strs(args@);
    if !str_eq(config.model_size.as_str(), "auto") {
        args.push("--model-size".to_owned());
        args.push(config.model_size.clone());
    }
    let ghost sized = strs(args@);
    if config.enable_align {
        args.push("--enable-align".to_owned());
    } else {
        args.push("--no-align".to_owned());
    }
    let ghost aligned = strs(args@);
    if config.enable_punc {
        args.push("--use-punc".to_owned());
    }
    assert(strs(args@) == script_args(*config));
    args
}

/// The arguments of the native launch: the service module, then its options.
pub fn native_launch_args(config: &ASRStartConfig) -> (r: Vec<String>)
    ensures
        strs(r@) == seq!["-m"@, "app.main"@] + script_args(*config),
{
    let mut args: Vec<String> = Vec::new();
    args.push("-m".to_owned());
    args.push("app.main".to_owned());
    let mut rest = build_script_args(config);
    let ghost head = strs(args@);
    let ghost tail = strs(rest@);
    args.append(&mut rest);
    assert(strs(args@) == head + tail);
    args
}

/// The container's fixed name.
pub open spec fn container_name() -> Seq<char> {
    "qwen3-asr-service"@
}

/// The options the service runs with inside a container: listening on all
/// interfaces at its fixed port, the rest as configured.
pub open spec fn container_script_args(c: ASRStartConfig) -> Seq<Seq<char>> {
    seq![
        "--host"@,
        "0.0.0.0"@,
        "--port"@,
        "8765"@,
        "--device"@,
        c.device@,
        "--model-source"@,
        c.model_source@,
        "--max-segment"@,
        digits_of(c.max_segment as nat),
    ] + (if c.model_size@ != "auto"@ {
        seq!["--model-size"@, c.model_size@]
    } else {
        Seq::empty()
    }) + (if c.enable_align {
        seq!["--enable-align"@]
    } else {
        seq!["--no-align"@]
    }) + (if c.enable_punc {
        seq!["--use-punc"@]
    } else {
        Seq::empty()
    })
}

/// `docker run` arguments: detached, removed on exit, the service port
/// published on loopback, the models directory mounted, the forced platform
/// and GPUs when asked, the image, then the service options.
pub open spec fn docker_run_args(
    c: ASRStartConfig,
    image: Seq<char>,
    models_dir: Seq<char>,
    use_gpu: bool,
    force_platform: Option<Seq<char>>,
) -> Seq<Seq<char>> {
    seq![
        "run"@,
        "--rm"@,
        "-d"@,
        "--name"@,
        container_name(),
        "-p"@,
        "127.0.0.1:"@ + digits_of(c.port as nat) + ":8765"@,
        "-v"@,
        models_dir + ":/app/models"@,
    ] + (match force_platform {
        Some(p) => seq!["--platform"@, p],
        None => Seq::empty(),
    }) + (if use_gpu {
        seq!["--gpus"@, "all"@]
    } else {
        Seq::empty()
    }) + seq![image] + container_script_args(c)
}

fn push_container_script_args(a: &mut Vec<String>, config: &ASRStartConfig)
    ensures
        strs(final(a)@) == strs(old(a)@) + container_script_args(*config),
{
    let ghost start = strs(a@);
    a.push("--host".to_owned());
    a.push("0.0.0.0".to_owned());
    a.push("--port".to_owned());
    a.push("8765".to_owned());
    a.push("--device".to_owned());
    a.push(config.device.clone());
    a.push("--model-source".to_owned());
    a.push(config.model_source.clone());
    a.push("--max-segment".to_owned());
    a.push(decimal_string(config.max_segment as u64));
    let ghost base = strs(a@);
    if !str_eq(config.model_size.as_str(), "auto") {
        a.push("--model-size".to_owned());
        a.push(config.model_size.clone());
    }
    let ghost sized = strs(a@);
    if config.enable_align {
        a.push("--enable-align".to_owned());
    } else {
        a.push("--no-align".to_owned());
    }
    let ghost aligned = strs(a@);
    if config.enable_punc {
        a.push("--use-punc".to_owned());
    }
    assert(strs(a@) == start + container_script_args(*config));
}

/// Builds the `docker run` arguments of a container launch.
pub fn build_docker_run_args(
    config: &ASRStartConfig,
    image: &str,
    models_dir: &str,
    use_gpu: bool,
    force_platform: &Option<String>,
) -> (r: Vec<String>)
    ensures
        strs(r@) == docker_run_args(*config, image@, models_dir@, use_gpu, opt_view(*force_platform)),
{
    let mut a: Vec<String> = Vec::new();
    a.push("run".to_owned());
    a.push("--rm".to_owned());
    a.push("-d".to_owned());
    a.push("--name".to_owned());
    a.push("qwen3-asr-service".to_owned());
    a.push("-p".to_owned());
    let mut publish: Vec<char> = Vec::new();
    push_str(&mut publish, "127.0.0.1:");
    push_digits(&mut publish, config.port as u64);
    push_str(&mut publish, ":8765");
    a.push(string_of(&publish));
    a.push("-v".to_owned());
    let mut mount = models_dir.to_owned();
    mount.append(":/app/models");
    a.push(mount);
    let ghost head = strs(a@);
    match force_platform {
        Some(p) => {
            a.push("--platform".to_owned());
            a.push(p.clone());
        },
        None => {},
    }
    let ghost plat = strs(a@);
    if use_gpu {
        a.push("--gpus".to_owned());
        a.push("all".to_owned());
    }
    let ghost gpus = strs(a@);
    a.push(image.to_owned());
    let ghost before_opts = strs(a@);
    assert(before_opts == head + (match opt_view(*force_platform) {
        Some(p) => seq!["--platform"@, p],
        None => Seq::<Seq<char>>::empty(),
    }) + (if use_gpu {
        seq!["--gpus"@, "all"@]
    } else {
        Seq::<Seq<char>>::empty()
    }) + seq![image@]);
    push_container_script_args(&mut a, config);
    a
}

/// The install check's verdict and hint, by platform and what was found.
pub open spec fn setup_hint_spec(os: HostOs, has_env: bool, has_main: bool) -> Option<Seq<char>> {
    if os == HostOs::Windows {
        if !has_env && !has_main {
            Some("请先运行 setup.bat 安装 Python 环境和依赖"@)
        } else if !has_env {
            Some("未找到便携 Python 环境（bin/python/python.exe 或 lib/），请运行 setup.bat"@)
        } else if !has_main {
            Some("未找到入口文件 app/main.py，请检查服务目录"@)
        } else {
            None
        }
    } else {
        if !has_env && !has_main {
            Some("请在终端中运行 setup.sh 初始化 venv 和依赖"@)
        } else if !has_env {
            Some("未找到 Python venv，请在终端中运行 setup.sh"@)
        } else if !has_main {
            Some("未找到入口文件 app/main.py，请检查服务目录"@)
        } else {
            None
        }
    }
}

pub open spec fn platform_name(os: HostOs) -> Seq<char> {
    match os {
        HostOs::Windows => "windows"@,
        HostOs::MacOs => "macos"@,
        HostOs::Linux => "linux"@,
    }
}

/// The verdict on an install directory: valid when both the Python
/// environment and the entry point are there, with a hint otherwise.
pub fn path_validation(os: HostOs, has_python_env: bool, has_main: bool, python_path: String) -> (r:
    ASRPathValidation)
    ensures
        r.valid == (has_python_env && has_main),
        r.has_python_env == has_python_env,
        r.has_main == has_main,
        r.python_path == python_path,
        r.platform@ == platform_name(os),
        opt_view(r.setup_hint) == setup_hint_spec(os, has_python_env, has_main),
{
    let setup_hint = match os {
        HostOs::Windows => if !has_python_env && !has_main {
            Some("请先运行 setup.bat 安装 Python 环境和依赖".to_owned())
        } else if !has_python_env {
            Some("未找到便携 Python 环境（bin/python/python.exe 或 lib/），请运行 setup.bat".to_owned())
        } else if !has_main {
            Some("未找到入口文件 app/main.py，请检查服务目录".to_owned())
        } else {
            None
        },
        _ => if !has_python_env && !has_main {
            Some("请在终端中运行 setup.sh 初始化 venv 和依赖".to_owned())
        } else if !has_python_env {
            Some("未找到 Python venv，请在终端中运行 setup.sh".to_owned())
        } else if !has_main {
            Some("未找到入口文件 app/main.py，请检查服务目录".to_owned())
        } else {
            None
        },
    };
    let platform = match os {
        HostOs::Windows => "windows".to_owned(),
        HostOs::MacOs => "macos".to_owned(),
        HostOs::Linux => "linux".to_owned(),
    };
    ASRPathValidation {
        valid: has_python_env && has_main,
        has_python_env,
        has_main,
        python_path,
        platform,
        setup_hint,
    }
}

/// The name of the install script for a platform.
pub fn setup_script_name(os: HostOs) -> (r: String)
    ensures
        r@ == (if os == HostOs::Windows { "setup.bat"@ } else { "setup.sh"@ }),
{
    match os {
        HostOs::Windows => "setup.bat".to_owned(),
        _ => "setup.sh".to_owned(),
    }
}

/// Words in an error message that mark it as worth retrying.
pub open spec fn retryable_keywords() -> Seq<Seq<char>> {
    seq!["timeout"@, "connection"@, "busy"@, "temporarily"@, "503"@, "429"@, "network"@]
}

pub open spec fn retryable_spec(error: Seq<char>) -> bool {
    exists|i: int|
        0 <= i < retryable_keywords().len() && contains_run(
            unicode_lowercase(error),
            #[trigger] retryable_keywords()[i],
        )
}

/// Whether a recognition error is transient: its lower-cased text mentions
/// a timeout, the connection, a busy or temporarily unavailable service,
/// HTTP 503 or 429, or the network.
pub fn is_retryable_error(error: &str) -> (r: bool)
    ensures
        r == retryable_spec(error@),
{
    let lower = crate::text::to_lowercase(error);
    mentions_retry_keyword(lower.as_str())
}

/// Whether lower-cased error text mentions one of the retryable keywords.
pub fn mentions_retry_keyword(l: &str) -> (r: bool)
    ensures
        r == exists|i: int|
            0 <= i < retryable_keywords().len() && contains_run(l@, #[trigger] retryable_keywords()[i]),
{
    let ghost ks = retryable_keywords();
    let r = str_contains(l, "timeout") || str_contains(l, "connection") || str_contains(l, "busy")
        || str_contains(l, "temporarily") || str_contains(l, "503") || str_contains(l, "429")
        || str_contains(l, "network");
    proof {
        if r {
            if contains_run(l@, "timeout"@) { assert(contains_run(l@, ks[0])); }
            if contains_run(l@, "connection"@) { assert(contains_run(l@, ks[1])); }
            if contains_run(l@, "busy"@) { assert(contains_run(l@, ks[2])); }
            if contains_run(l@, "temporarily"@) { assert(contains_run(l@, ks[3])); }
            if contains_run(l@, "503"@) { assert(contains_run(l@, ks[4])); }
            if contains_run(l@, "429"@) { assert(contains_run(l@, ks[5])); }
            if contains_run(l@, "network"@) { assert(contains_run(l@, ks[6])); }
        } else {
            assert forall|i: int| 0 <= i < ks.len() implies !contains_run(l@, #[trigger] ks[i]) by {}
        }
    }
    r
}

pub open spec fn empty_url_msg() -> Seq<char> {
    "远程 ASR 地址不能为空"@
}

pub open spec fn bad_scheme_msg(trimmed: Seq<char>) -> Seq<char> {
    "远程 ASR 地址协议不受支持，仅允许 http:// 或 https://（当前："@ + trimmed + "）"@
}

/// A remote service address must be `http://` or `https://` (in any case),
/// after trimming.
pub open spec fn url_check(url: Seq<char>) -> Option<Seq<char>> {
    let t = trim_spec(url);
    if t.len() == 0 {
        Some(empty_url_msg())
    } else if !(starts_with_spec(ascii_lower(t), "http://"@) || starts_with_spec(
        ascii_lower(t),
        "https://"@,
    )) {
        Some(bad_scheme_msg(t))
    } else {
        None
    }
}

/// Accepts only `http://` and `https://` addresses for a remote service.
pub fn validate_asr_url(url: &str) -> (r: Result<(), String>)
    ensures
        match url_check(url@) {
            Some(m) => r matches Err(e) && e@ == m,
            None => r is Ok,
        },
{
    let cs = chars_of(url);
    let t = crate::text::trim_chars(&cs);
    if t.len() == 0 {
        return Err("远程 ASR 地址不能为空".to_owned());
    }
    let lower = crate::text::to_ascii_lowercase(&t);
    let http = chars_of("http://");
    let https = chars_of("https://");
    if !(crate::text::starts_with(&lower, &http) || crate::text::starts_with(&lower, &https)) {
        let mut buf: Vec<char> = Vec::new();
        push_str(&mut buf, "远程 ASR 地址协议不受支持，仅允许 http:// 或 https://（当前：");
        crate::text::push_all(&mut buf, &t);
        push_str(&mut buf, "）");
        return Err(string_of(&buf));
    }
    Ok(())
}

/// The tag of an image reference: what follows its last `:`, or all of it.
pub open spec fn image_tag(image: Seq<char>) -> Seq<char>
    decreases image.len(),
{
    if image.len() == 0 {
        image
    } else if image.last() == ':' {
        Seq::empty()
    } else {
        image_tag(image.drop_last()).push(image.last())
    }
}

/// GPU use and forced platform for an image: CPU builds run under amd64
/// emulation on arm64 hosts, arm64 builds need nothing, any other tag is a
/// CUDA build that gets the GPUs.
pub open spec fn docker_flags(image: Seq<char>, host_arch: Seq<char>) -> (bool, Option<Seq<char>>) {
    let tag = image_tag(image);
    if contains_run(tag, "-cpu"@) {
        (false, if host_arch == "arm64"@ { Some("linux/amd64"@) } else { None })
    } else if contains_run(tag, "-arm64"@) {
        (false, None)
    } else {
        (true, None)
    }
}

fn image_tag_of(image: &str) -> (r: Vec<char>)
    ensures
        r@ == image_tag(image@),
{
    let cs = chars_of(image);
    let mut start: usize = cs.len();
    assert(cs@.take(cs.len() as int) == cs@);
    assert(cs@.skip(cs.len() as int) == Seq::<char>::empty());
    while start > 0 && cs[start - 1] != ':'
        invariant
            start <= cs.len(),
            image_tag(cs@) == image_tag(cs@.take(start as int)) + cs@.skip(start as int),
        decreases start,
    {
        let ghost pre = cs@.take(start as int);
        assert(pre.drop_last() == cs@.take(start - 1));
        assert(cs@.skip(start - 1) == seq![cs@[start - 1]] + cs@.skip(start as int));
        start = start - 1;
    }
    proof {
        if start > 0 {
            assert(image_tag(cs@.take(start as int)) == Seq::<char>::empty());
        } else {
            assert(cs@.take(0) == Seq::<char>::empty());
        }
        assert(cs@.take(cs@.len() as int) == cs@);
    }
    let mut r: Vec<char> = Vec::new();
    let mut i: usize = start;
    while i < cs.len()
        invariant
            start <= i <= cs.len(),
            r@ == cs@.subrange(start as int, i as int),
        decreases cs.len() - i,
    {
        r.push(cs[i]);
        i = i + 1;
        assert(r@ == cs@.subrange(start as int, i as int));
    }
    assert(cs@.subrange(start as int, cs.len() as int) == cs@.skip(start as int));
    r
}

/// Chooses `--gpus` and `--platform` for running `image` on this host.
pub fn decide_docker_runtime_flags(image: &str, cap: &DockerCapability) -> (r: (bool, Option<String>))
    ensures
        (r.0, opt_view(r.1)) == docker_flags(image@, cap.host_arch@),
{
    let tag = image_tag_of(image);
    let cpu = chars_of("-cpu");
    let arm = chars_of("-arm64");
    if crate::text::contains_chars(&tag, &cpu) {
        let force = if str_eq(cap.host_arch.as_str(), "arm64") {
            Some("linux/amd64".to_owned())
        } else {
            None
        };
        (false, force)
    } else if crate::text::contains_chars(&tag, &arm) {
        (false, None)
    } else {
        (true, None)
    }
}

/// What the host probe found of the container runtime, from the version
/// command's output (`None` when it failed) and whether the daemon answered.
pub fn docker_capability(
    host_platform: String,
    host_arch: String,
    version_output: Option<String>,
    daemon_answers: bool,
) -> (r: DockerCapability)
    ensures
        r.host_platform == host_platform,
        r.host_arch == host_arch,
        r.installed == version_output.is_some(),
        r.daemon_running == (version_output.is_some() && daemon_answers),
        opt_view(r.version) == match version_output {
            Some(v) => if trim_spec(v@).len() == 0 { None } else { Some(trim_spec(v@)) },
            None => None,
        },
        opt_view(r.hint) == if version_output.is_none() {
            Some("未检测到 Docker，请先安装 Docker Desktop 或 Docker Engine"@)
        } else if !daemon_answers {
            Some("Docker 已安装但守护进程未运行，请启动 Docker Desktop 后刷新"@)
        } else {
            None
        },
{
    match version_output {
        None => DockerCapability {
            installed: false,
            daemon_running: false,
            host_arch,
            host_platform,
            version: None,
            hint: Some("未检测到 Docker，请先安装 Docker Desktop 或 Docker Engine".to_owned()),
        },
        Some(v) => {
            let cs = chars_of(v.as_str());
            let t = crate::text::trim_chars(&cs);
            let version = if t.len() == 0 {
                None
            } else {
                Some(string_of(&t))
            };
            let hint = if !daemon_answers {
                Some("Docker 已安装但守护进程未运行，请启动 Docker Desktop 后刷新".to_owned())
            } else {
                None
            };
            DockerCapability {
                installed: true,
                daemon_running: daemon_answers,
                host_arch,
                host_platform,
                version,
                hint,
            }
        },
    }
}

/// The base address of the local service: a wildcard or empty bind host is
/// reached through loopback.
pub open spec fn local_base_url(host: Seq<char>, port: u16) -> Seq<char> {
    let h = if host.len() == 0 || host == "0.0.0.0"@ { "127.0.0.1"@ } else { host };
    "http://"@ + h + ":"@ + digits_of(port as nat)
}

pub fn local_service_url(host: &str, port: u16) -> (r: String)
    ensures
        r@ == local_base_url(host@, port),
{
    let mut buf: Vec<char> = Vec::new();
    push_str(&mut buf, "http://");
    if host.is_empty() || str_eq(host, "0.0.0.0") {
        push_str(&mut buf, "127.0.0.1");
    } else {
        push_str(&mut buf, host);
    }
    push_str(&mut buf, ":");
    push_digits(&mut buf, port as u64);
    string_of(&buf)
}

/// Whether a start request proceeds: a running service is left alone, one
/// that is starting or stopping refuses, otherwise it is launched.
pub enum StartCheck {
    AlreadyRunning,
    Refuse(String),
    Launch,
}

pub open spec fn start_check_view(c: StartCheck) -> (int, Seq<char>) {
    match c {
        StartCheck::AlreadyRunning => (0, Seq::empty()),
        StartCheck::Refuse(m) => (1, m@),
        StartCheck::Launch => (2, Seq::empty()),
    }
}

pub open spec fn start_check_spec(s: ASRServiceStatus) -> (int, Seq<char>) {
    match s {
        ASRServiceStatus::Running => (0, Seq::empty()),
        ASRServiceStatus::Starting => (1, "ASR 服务正在启动中，请等待"@),
        ASRServiceStatus::Stopping => (1, "ASR 服务正在停止中，请等待"@),
        _ => (2, Seq::empty()),
    }
}

pub fn start_check(status: &ASRServiceStatus) -> (r: StartCheck)
    ensures
        start_check_view(r) == start_check_spec(*status),
{
    match status {
        ASRServiceStatus::Running => StartCheck::AlreadyRunning,
        ASRServiceStatus::Starting => StartCheck::Refuse("ASR 服务正在启动中，请等待".to_owned()),
        ASRServiceStatus::Stopping => StartCheck::Refuse("ASR 服务正在停止中，请等待".to_owned()),
        _ => StartCheck::Launch,
    }
}

/// The launch kind reported for a launch mode.
pub fn launch_kind(mode: &Option<ASRLaunchMode>) -> (r: Option<String>)
    ensures
        opt_view(r) == match mode {
            Some(ASRLaunchMode::Native { .. }) => Some("native"@),
            Some(ASRLaunchMode::Docker { .. }) => Some("docker"@),
            None => None,
        },
{
    match mode {
        Some(ASRLaunchMode::Native { .. }) => Some("native".to_owned()),
        Some(ASRLaunchMode::Docker { .. }) => Some("docker".to_owned()),
        None => None,
    }
}

/// A container launch counts as alive while the service is starting or
/// running.
pub fn docker_alive(status: &ASRServiceStatus) -> (r: bool)
    ensures
        r == (*status is Running || *status is Starting),
{
    match status {
        ASRServiceStatus::Running | ASRServiceStatus::Starting => true,
        _ => false,
    }
}

/// Why a native launch is refused for an install directory that failed
/// its check: the hint, if any.
pub fn invalid_path_message(v: &ASRPathValidation) -> (r: String)
    ensures
        r@ == "ASR 服务路径无效："@ + match opt_view(v.setup_hint) {
            Some(h) => h,
            None => Seq::empty(),
        },
{
    let mut b: Vec<char> = Vec::new();
    push_str(&mut b, "ASR 服务路径无效：");
    let ghost before = b@;
    match &v.setup_hint {
        Some(h) => push_str(&mut b, h.as_str()),
        None => {},
    }
    assert(b@ == before + match opt_view(v.setup_hint) {
        Some(h) => h,
        None => Seq::empty(),
    });
    string_of(&b)
}

/// Log lines kept.
pub const MAX_LOG_LINES: usize = 2000;

/// The service's most recent log lines, oldest first.
pub struct LogBuffer {
    pub lines: Vec<String>,
}

impl LogBuffer {
    pub open spec fn wf(self) -> bool {
        self.lines@.len() <= MAX_LOG_LINES
    }

    pub fn new() -> (r: LogBuffer)
        ensures
            r.wf(),
            r.lines@.len() == 0,
    {
        LogBuffer { lines: Vec::new() }
    }

    /// Appends a line, dropping the oldest when full.
    pub fn push(&mut self, line: String)
        requires
            old(self).wf(),
        ensures
            final(self).wf(),
            strs(final(self).lines@) == if old(self).lines@.len() >= MAX_LOG_LINES {
                strs(old(self).lines@).skip(1).push(line@)
            } else {
                strs(old(self).lines@).push(line@)
            },
    {
        if self.lines.len() >= MAX_LOG_LINES {
            let ghost pre = self.lines@;
            self.lines.remove(0);
            assert(strs(self.lines@) == strs(pre).skip(1));
        }
        let ghost mid = self.lines@;
        self.lines.push(line);
        assert(strs(self.lines@) == strs(mid).push(line@));
    }

    /// The last `limit` lines, oldest first.
    pub fn recent(&self, limit: usize) -> (r: Vec<String>)
        ensures
            strs(r@) == strs(self.lines@).skip(
                if self.lines@.len() > limit { self.lines@.len() - limit } else { 0 },
            ),
    {
        let start = if self.lines.len() > limit {
            self.lines.len() - limit
        } else {
            0
        };
        let mut r: Vec<String> = Vec::new();
        let mut i: usize = start;
        while i < self.lines.len()
            invariant
                start <= i <= self.lines.len(),
                strs(r@) == strs(self.lines@).subrange(start as int, i as int),
            decreases self.lines.len() - i,
        {
            let ghost pre = r@;
            r.push(self.lines[i].clone());
            assert(r@ == pre.push(self.lines@[i as int]));
            assert(strs(self.lines@).subrange(start as int, i + 1) == strs(self.lines@).subrange(
                start as int,
                i as int,
            ).push(self.lines@[i as int]@));
            i = i + 1;
            assert(strs(r@) == strs(self.lines@).subrange(start as int, i as int));
        }
        assert(strs(self.lines@).subrange(start as int, self.lines@.len() as int) == strs(
            self.lines@,
        ).skip(start as int));
        r
    }
}

/// Fast health probes before polling slows down.
pub const MAX_HEALTH_CHECK_ATTEMPTS: u32 = 40;

/// Slow probes before giving up.
pub const MAX_SLOW_MODE_ATTEMPTS: u32 = 120;

/// Progress of start-up health polling.
pub struct HealthPoll {
    pub attempt: u32,
    pub slow_mode: bool,
    pub slow_attempts: u32,
}

/// What to do after an unsuccessful or successful probe.
pub enum HealthAction {
    /// The service answered: watch it from now on.
    Monitor,
    /// Give up with this message.
    Fail(String),
    /// Probe again after `sleep_secs`; `slow_notice` asks to tell the user
    /// that start-up is slow.
    Retry { sleep_secs: u64, slow_notice: bool },
}

pub open spec fn launcher_exit_msg() -> Seq<char> {
    "ASR 服务进程异常退出，请查看日志了解原因"@
}

pub open spec fn slow_timeout_msg() -> Seq<char> {
    "ASR 服务在 30 分钟内仍未就绪，已自动停止。请检查日志排查问题。"@
}

/// The action and next state after a probe: healthy means monitor; a
/// launcher gone for five probes or more means failure; otherwise count the
/// probe, slow down after forty, and give up after a hundred and twenty
/// slow ones.
pub open spec fn health_step_spec(
    p: HealthPoll,
    launcher_exited: bool,
    healthy: bool,
) -> (HealthPoll, (int, Seq<char>, u64, bool)) {
    if healthy {
        (p, (0, Seq::empty(), 0, false))
    } else if launcher_exited && p.attempt >= 5 {
        (p, (1, launcher_exit_msg(), 0, false))
    } else {
        let attempt = (p.attempt + 1) as u32;
        let notice = !p.slow_mode && attempt >= MAX_HEALTH_CHECK_ATTEMPTS;
        let slow = p.slow_mode || notice;
        let slow_attempts = if slow { (p.slow_attempts + 1) as u32 } else { p.slow_attempts };
        let next = HealthPoll { attempt, slow_mode: slow, slow_attempts };
        if slow && slow_attempts >= MAX_SLOW_MODE_ATTEMPTS {
            (next, (1, slow_timeout_msg(), 0, false))
        } else {
            (next, (2, Seq::empty(), if slow { 15 } else { 3 }, notice))
        }
    }
}

pub open spec fn health_action_view(a: HealthAction) -> (int, Seq<char>, u64, bool) {
    match a {
        HealthAction::Monitor => (0, Seq::empty(), 0, false),
        HealthAction::Fail(m) => (1, m@, 0, false),
        HealthAction::Retry { sleep_secs, slow_notice } => (2, Seq::empty(), sleep_secs, slow_notice),
    }
}

impl HealthPoll {
    pub fn new() -> (r: HealthPoll)
        ensures
            r == (HealthPoll { attempt: 0, slow_mode: false, slow_attempts: 0 }),
    {
        HealthPoll { attempt: 0, slow_mode: false, slow_attempts: 0 }
    }

    /// One round of start-up polling after a probe. A container launch has
    /// no launcher process and passes `launcher_exited == false`.
    pub fn step(&mut self, launcher_exited: bool, healthy: bool) -> (r: HealthAction)
        requires
            old(self).attempt < u32::MAX,
            old(self).slow_attempts < u32::MAX,
        ensures
            (*final(self), health_action_view(r)) == health_step_spec(*old(self), launcher_exited, healthy),
    {
        if healthy {
            return HealthAction::Monitor;
        }
        if launcher_exited && self.attempt >= 5 {
            return HealthAction::Fail("ASR 服务进程异常退出，请查看日志了解原因".to_owned());
        }
        self.attempt = self.attempt + 1;
        let notice = !self.slow_mode && self.attempt >= MAX_HEALTH_CHECK_ATTEMPTS;
        if notice {
            self.slow_mode = true;
        }
        if self.slow_mode {
            self.slow_attempts = self.slow_attempts + 1;
            if self.slow_attempts >= MAX_SLOW_MODE_ATTEMPTS {
                return HealthAction::Fail(
                    "ASR 服务在 30 分钟内仍未就绪，已自动停止。请检查日志排查问题。".to_owned(),
                );
            }
        }
        HealthAction::Retry { sleep_secs: if self.slow_mode { 15 } else { 3 }, slow_notice: notice }
    }
}

/// The state after `n` probes of a service that never answers, its launcher
/// still alive.
pub open spec fn unanswered(n: nat) -> HealthPoll
    decreases n,
{
    if n == 0 {
        HealthPoll { attempt: 0, slow_mode: false, slow_attempts: 0 }
    } else {
        health_step_spec(unanswered((n - 1) as nat), false, false).0
    }
}

proof fn lemma_unanswered(n: nat)
    requires
        n <= 158,
    ensures
        unanswered(n) == (if n < 40 {
            HealthPoll { attempt: n as u32, slow_mode: false, slow_attempts: 0 }
        } else {
            HealthPoll { attempt: n as u32, slow_mode: true, slow_attempts: (n - 39) as u32 }
        }),
        health_step_spec(unanswered(n), false, false).1.0 == (if n < 158 { 2int } else { 1int }),
    decreases n,
{
    if n > 0 {
        lemma_unanswered((n - 1) as nat);
    }
}

/// Start-up polling of a service that never answers probes fast for two
/// minutes, then slowly, and gives up at the hundred-and-fifty-ninth probe
/// (half an hour of waiting); every earlier probe is retried.
pub proof fn law_start_up_gives_up(n: nat)
    requires
        n <= 158,
    ensures
        n < 158 ==> health_step_spec(unanswered(n), false, false).1.0 == 2,
        n < 39 ==> health_step_spec(unanswered(n), false, false).1.2 == 3,
        39 <= n < 158 ==> health_step_spec(unanswered(n), false, false).1.2 == 15,
        health_step_spec(unanswered(158), false, false).1 == (1int, slow_timeout_msg(), 0u64, false),
{
    lemma_unanswered(n);
    lemma_unanswered(158);
}

/// Whether `y` is a leap year of the proleptic Gregorian calendar.
pub open spec fn is_leap(y: int) -> bool {
    (y % 4 == 0 && y % 100 != 0) || y % 400 == 0
}

/// The days of month `m` (1 to 12) of year `y`.
pub open spec fn month_days(y: int, m: int) -> int {
    if m == 2 {
        if is_leap(y) { 29 } else { 28 }
    } else if m == 4 || m == 6 || m == 9 || m == 11 {
        30
    } else {
        31
    }
}

/// The days of year `y` before the first of month `m` (1 to 12).
pub open spec fn days_before_month(y: int, m: int) -> int {
    let base: int = if m <= 1 {
        0
    } else if m == 2 {
        31
    } else if m == 3 {
        59
    } else if m == 4 {
        90
    } else if m == 5 {
        120
    } else if m == 6 {
        151
    } else if m == 7 {
        181
    } else if m == 8 {
        212
    } else if m == 9 {
        243
    } else if m == 10 {
        273
    } else if m == 11 {
        304
    } else {
        334
    };
    base + if m > 2 && is_leap(y) { 1int } else { 0int }
}

/// Leap years among years `1..=n` (negative for `n < 0`, so that
/// differences count the leap years between two years).
pub open spec fn leaps_through(n: int) -> int {
    n / 4 - n / 100 + n / 400
}

/// Days from 1970-01-01 to `y-m-d` on the proleptic Gregorian calendar.
pub open spec fn days_from_epoch(y: int, m: int, d: int) -> int {
    365 * (y - 1970) + (leaps_through(y - 1) - leaps_through(1969)) + days_before_month(y, m) + d - 1
}

/// Month `mo` of year `y` carried into range: the year and a month 1 to
/// 12 (month 0 is December of the year before, month 13 January after).
pub open spec fn carried_month(y: int, mo: int) -> (int, int) {
    (y + (mo - 1) / 12, (mo - 1) % 12 + 1)
}

/// Reads `yyyy-MM-dd HH:mm:ss` (fields split at `-`, space and `:`; the
/// year an `i32`, the rest `u32`) as Unix milliseconds of that UTC
/// wall-clock time on the proleptic Gregorian calendar. A field beyond its
/// range carries over into the next larger unit (day 0 is the last day of
/// the month before, hour 24 the next day), as `timegm` normalises.
pub open spec fn recorded_at_ms(s: Seq<char>) -> Option<int> {
    let p = crate::text::split_by(s, seq!['-', ' ', ':']);
    if p.len() < 6 {
        None
    } else if crate::text::parse_i32_spec(p[0]) is Some && crate::text::parse_u32_spec(p[1]) is Some
        && crate::text::parse_u32_spec(p[2]) is Some && crate::text::parse_u32_spec(p[3]) is Some
        && crate::text::parse_u32_spec(p[4]) is Some && crate::text::parse_u32_spec(p[5]) is Some {
        let y = crate::text::parse_i32_spec(p[0]).unwrap();
        let mo = crate::text::parse_u32_spec(p[1]).unwrap();
        let d = crate::text::parse_u32_spec(p[2]).unwrap();
        let h = crate::text::parse_u32_spec(p[3]).unwrap();
        let mi = crate::text::parse_u32_spec(p[4]).unwrap();
        let sec = crate::text::parse_u32_spec(p[5]).unwrap();
        let (yy, mm) = carried_month(y, mo);
        Some((days_from_epoch(yy, mm, d) * 86400 + h * 3600 + mi * 60 + sec) * 1000)
    } else {
        None
    }
}

/// Floor division by a positive constant.
fn floor_div(a: i128, b: i128) -> (r: i128)
    requires
        b > 0,
        -0x1000000000000 <= a <= 0x1000000000000,
    ensures
        r == a / b,
{
    if a >= 0 {
        a / b
    } else {
        let c = -a - 1;
        let q = c / b;
        proof {
            let r = c % b;
            vstd::arithmetic::div_mod::lemma_fundamental_div_mod(c as int, b as int);
            assert(a == (-q - 1) * b + (b - r - 1)) by (nonlinear_arith)
                requires
                    c == b * q + r,
                    a == -c - 1,
            ;
            vstd::arithmetic::div_mod::lemma_fundamental_div_mod_converse(
                a as int,
                b as int,
                -q - 1,
                b - r - 1,
            );
        }
        -q - 1
    }
}

fn is_leap_exec(y: i128) -> (r: bool)
    requires
        -0x100000000 <= y <= 0x100000000,
    ensures
        r == is_leap(y as int),
{
    let q4 = floor_div(y, 4);
    let q100 = floor_div(y, 100);
    let q400 = floor_div(y, 400);
    proof {
        vstd::arithmetic::div_mod::lemma_fundamental_div_mod(y as int, 4);
        vstd::arithmetic::div_mod::lemma_fundamental_div_mod(y as int, 100);
        vstd::arithmetic::div_mod::lemma_fundamental_div_mod(y as int, 400);
    }
    (y == q4 * 4 && y != q100 * 100) || y == q400 * 400
}

fn days_from_epoch_exec(y: i128, m: i128, d: i128) -> (r: i128)
    requires
        -0x100000000 <= y <= 0x100000000,
        1 <= m <= 12,
        0 <= d <= 0xffffffff,
    ensures
        r == days_from_epoch(y as int, m as int, d as int),
{
    let leap = is_leap_exec(y);
    let base: i128 = if m <= 1 {
        0
    } else if m == 2 {
        31
    } else if m == 3 {
        59
    } else if m == 4 {
        90
    } else if m == 5 {
        120
    } else if m == 6 {
        151
    } else if m == 7 {
        181
    } else if m == 8 {
        212
    } else if m == 9 {
        243
    } else if m == 10 {
        273
    } else if m == 11 {
        304
    } else {
        334
    };
    let before = base + if m > 2 && leap { 1 } else { 0 };
    let n = y - 1;
    let lt = floor_div(n, 4) - floor_div(n, 100) + floor_div(n, 400);
    let lt1969: i128 = 1969 / 4 - 1969 / 100 + 1969 / 400;
    365 * (y - 1970) + (lt - lt1969) + before + d - 1
}

/// Converts a recording time to Unix milliseconds (its date and time read
/// as UTC); a malformed or non-existent date or time gives nothing. Times
/// whose value does not fit an `i64` are outside its domain.
pub fn parse_recorded_at_to_unix_ms(ts: &str) -> (r: Option<i64>)
    requires
        match recorded_at_ms(ts@) {
            Some(v) => i64::MIN <= v <= i64::MAX,
            None => true,
        },
    ensures
        match r {
            Some(v) => recorded_at_ms(ts@) == Some(v as int),
            None => recorded_at_ms(ts@) is None,
        },
{
    let cs = chars_of(ts);
    let seps: Vec<char> = vec!['-', ' ', ':'];
    let parts = crate::text::split_chars(&cs, &seps);
    assert(seps@ == seq!['-', ' ', ':']);
    let ghost p = crate::text::split_by(ts@, seq!['-', ' ', ':']);
    if parts.len() < 6 {
        return None;
    }
    assert(parts@[0]@ == p[0] && parts@[1]@ == p[1] && parts@[2]@ == p[2]);
    assert(parts@[3]@ == p[3] && parts@[4]@ == p[4] && parts@[5]@ == p[5]);
    let umax: i128 = 0xffffffff;
    let y = match crate::text::parse_int(&parts[0], true, -0x80000000, 0x7fffffff) {
        Some(v) => v,
        None => {
            return None;
        },
    };
    let mo = match crate::text::parse_int(&parts[1], false, 0, umax) {
        Some(v) => v,
        None => {
            return None;
        },
    };
    let d = match crate::text::parse_int(&parts[2], false, 0, umax) {
        Some(v) => v,
        None => {
            return None;
        },
    };
    let h = match crate::text::parse_int(&parts[3], false, 0, umax) {
        Some(v) => v,
        None => {
            return None;
        },
    };
    let mi = match crate::text::parse_int(&parts[4], false, 0, umax) {
        Some(v) => v,
        None => {
            return None;
        },
    };
    let sec = match crate::text::parse_int(&parts[5], false, 0, umax) {
        Some(v) => v,
        None => {
            return None;
        },
    };
    let q = floor_div(mo - 1, 12);
    let yy = y + q;
    let mm = (mo - 1) - 12 * q + 1;
    assert(yy == carried_month(y as int, mo as int).0);
    assert(mm == carried_month(y as int, mo as int).1) by (nonlinear_arith)
        requires
            q == (mo - 1) / 12,
            mm == (mo - 1) - 12 * q + 1,
    {
    }
    let days = days_from_epoch_exec(yy, mm, d);
    let v: i128 = (days * 86400 + h * 3600 + mi * 60 + sec) * 1000;
    Some(v as i64)
}

/// Successive calendar days read one day (86,400,000 ms) apart, also
/// across the end of a month.
pub proof fn law_recorded_days_follow_on(y: int, m: int, d: int)
    requires
        1 <= m <= 12,
        1 <= d <= month_days(y, m),
    ensures
        d < month_days(y, m) ==> days_from_epoch(y, m, d + 1) == days_from_epoch(y, m, d) + 1,
        d == month_days(y, m) && m < 12 ==> days_from_epoch(y, m + 1, 1) == days_from_epoch(y, m, d)
            + 1,
        days_from_epoch(1970, 1, 1) == 0,
{
}


/// The reading of `yyyy-MM-dd HH:mm:ss` that an older conversion stored:
/// milliseconds on a rough calendar (years of 365 days, months of 30).
pub open spec fn legacy_recorded_at_ms(s: Seq<char>) -> Option<int> {
    let p = crate::text::split_by(s, seq!['-', ' ', ':']);
    if p.len() < 6 {
        None
    } else if crate::text::parse_i32_spec(p[0]) is Some && crate::text::parse_u32_spec(p[1]) is Some
        && crate::text::parse_u32_spec(p[2]) is Some && crate::text::parse_u32_spec(p[3]) is Some
        && crate::text::parse_u32_spec(p[4]) is Some && crate::text::parse_u32_spec(p[5]) is Some {
        let y = crate::text::parse_i32_spec(p[0]).unwrap();
        let mo = crate::text::parse_u32_spec(p[1]).unwrap();
        let d = crate::text::parse_u32_spec(p[2]).unwrap();
        let h = crate::text::parse_u32_spec(p[3]).unwrap();
        let mi = crate::text::parse_u32_spec(p[4]).unwrap();
        let sec = crate::text::parse_u32_spec(p[5]).unwrap();
        Some((((y * 365 + mo * 30 + d) * 86400) + h * 3600 + mi * 60 + sec) * 1000)
    } else {
        None
    }
}

/// The older, rough reading of a recording time, which subtitle segments
/// written before the Unix conversion carry.
pub fn parse_recorded_at_legacy_buggy_ms(ts: &str) -> (r: Option<i64>)
    requires
        match legacy_recorded_at_ms(ts@) {
            Some(v) => i64::MIN <= v <= i64::MAX,
            None => true,
        },
    ensures
        match r {
            Some(v) => legacy_recorded_at_ms(ts@) == Some(v as int),
            None => legacy_recorded_at_ms(ts@) is None,
        },
{
    let cs = chars_of(ts);
    let seps: Vec<char> = vec!['-', ' ', ':'];
    let parts = crate::text::split_chars(&cs, &seps);
    assert(seps@ == seq!['-', ' ', ':']);
    let ghost p = crate::text::split_by(ts@, seq!['-', ' ', ':']);
    if parts.len() < 6 {
        return None;
    }
    assert(parts@[0]@ == p[0] && parts@[1]@ == p[1] && parts@[2]@ == p[2]);
    assert(parts@[3]@ == p[3] && parts@[4]@ == p[4] && parts@[5]@ == p[5]);
    let umax: i128 = 0xffffffff;
    let y = match crate::text::parse_int(&parts[0], true, -0x80000000, 0x7fffffff) {
        Some(v) => v,
        None => {
            return None;
        },
    };
    let mo = match crate::text::parse_int(&parts[1], false, 0, umax) {
        Some(v) => v,
        None => {
            return None;
        },
    };
    let d = match crate::text::parse_int(&parts[2], false, 0, umax) {
        Some(v) => v,
        None => {
            return None;
        },
    };
    let h = match crate::text::parse_int(&parts[3], false, 0, umax) {
        Some(v) => v,
        None => {
            return None;
        },
    };
    let mi = match crate::text::parse_int(&parts[4], false, 0, umax) {
        Some(v) => v,
        None => {
            return None;
        },
    };
    let sec = match crate::text::parse_int(&parts[5], false, 0, umax) {
        Some(v) => v,
        None => {
            return None;
        },
    };
    assert(-0x1000000000000000000000000 <= (((y * 365 + mo * 30 + d) * 86400) + h * 3600 + mi * 60
        + sec) * 1000 <= 0x1000000000000000000000000) by (nonlinear_arith)
        requires
            -0x80000000 <= y <= 0x7fffffff,
            0 <= mo <= 0xffffffff,
            0 <= d <= 0xffffffff,
            0 <= h <= 0xffffffff,
            0 <= mi <= 0xffffffff,
            0 <= sec <= 0xffffffff,
    ;
    let v: i128 = (((y * 365 + mo * 30 + d) * 86400) + h * 3600 + mi * 60 + sec) * 1000;
    Some(v as i64)
}

/// The older reading is the session grouping's rough reading in seconds,
/// scaled by a thousand.
pub proof fn law_legacy_ms_scales_secs(s: Seq<char>)
    requires
        legacy_recorded_at_ms(s) is Some,
    ensures
        crate::sessions::timestamp_secs(s) is Some,
        legacy_recorded_at_ms(s).unwrap() == crate::sessions::timestamp_secs(s).unwrap() * 1000,
{
    let p = crate::text::split_by(s, seq!['-', ' ', ':']);
    crate::text::lemma_parse_widen(p[0], true, i32::MIN as int, i32::MAX as int);
    crate::text::lemma_parse_widen(p[1], false, 0, u32::MAX as int);
    crate::text::lemma_parse_widen(p[2], false, 0, u32::MAX as int);
    crate::text::lemma_parse_widen(p[3], false, 0, u32::MAX as int);
    crate::text::lemma_parse_widen(p[4], false, 0, u32::MAX as int);
    crate::text::lemma_parse_widen(p[5], false, 0, u32::MAX as int);
}

/// How far a video's segments written with the older reading lie from
/// Unix milliseconds: older reading minus Unix reading; nothing when the
/// recording time is missing, empty, or either reading fails.
pub open spec fn repair_delta_spec(recorded_at: Option<Seq<char>>) -> Option<int> {
    match recorded_at {
        Some(t) => if t.len() == 0 {
            None
        } else {
            match (legacy_recorded_at_ms(t), recorded_at_ms(t)) {
                (Some(a), Some(b)) => Some(a - b),
                _ => None,
            }
        },
        None => None,
    }
}

pub fn repair_delta(recorded_at: &Option<String>) -> (r: Option<i64>)
    requires
        match *recorded_at {
            Some(t) => {
                &&& (legacy_recorded_at_ms(t@) matches Some(v) ==> i64::MIN <= v <= i64::MAX)
                &&& (recorded_at_ms(t@) matches Some(v) ==> i64::MIN <= v <= i64::MAX)
                &&& (repair_delta_spec(Some(t@)) matches Some(v) ==> i64::MIN <= v <= i64::MAX)
            },
            None => true,
        },
    ensures
        opt_int64(r) == repair_delta_spec(opt_view(*recorded_at)),
{
    match recorded_at {
        Some(t) => {
            if t.as_str().is_empty() {
                return None;
            }
            let legacy = match parse_recorded_at_legacy_buggy_ms(t.as_str()) {
                Some(v) => v,
                None => {
                    return None;
                },
            };
            let unix = match parse_recorded_at_to_unix_ms(t.as_str()) {
                Some(v) => v,
                None => {
                    return None;
                },
            };
            Some(legacy - unix)
        },
        None => None,
    }
}

pub open spec fn opt_int64(o: Option<i64>) -> Option<int> {
    match o {
        Some(v) => Some(v as int),
        None => None,
    }
}

} // verus!
