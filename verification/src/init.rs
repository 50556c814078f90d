//! Creating a new test matrix configuration.
use vstd::prelude::*;
use crate::config::{TestCase, TestMatrix};

verus! {

/// The configuration written by `init`, with comments that document each setting.
pub const DEFAULT_CONFIG: &'static str = r#"# Test Matrix Configuration / 测试矩阵配置
# Documentation: https://github.com/yourusername/matrix-runner

# Language for error messages / 错误消息的语言
language = "en"

# Test Cases / 测试用例
[[cases]]
name = "no-features" # Name of the test case / 测试用例名称
features = "" # Features to enable / 启用的特性
no_default_features = false # Disable default features? / 禁用默认特性？

[[cases]]
name = "all-features"
features = "full,extra"
no_default_features = false

[[cases]]
name = "no-default-features"
features = ""
no_default_features = true
# Optional timeout in seconds / 可选的超时时间（秒）
timeout_secs = 60
# Optional number of retries for flaky tests / 对于不稳定测试的可选重试次数
retries = 1
# Allow failure on specific platforms / 允许在特定平台上失败
allow_failure = ["windows"]
# Only run on specific architectures / 仅在特定架构上运行
arch = ["x86_64", "aarch64"]

# Custom command example / 自定义命令示例
[[cases]]
name = "custom-command"
features = ""
no_default_features = false
# Custom command to run / 要运行的自定义命令
command = "cargo run --example demo"
"#;

/// Whether `init` writes its file: when the file does not exist yet, or when
/// overwriting is forced.
pub fn should_write_config(file_exists: bool, force: bool) -> (r: bool)
    ensures
        r == (!file_exists || force),
{
    !file_exists || force
}

/// A case of the kinds the wizard offers, with a 10 second timeout.
pub open spec fn wizard_case(case: TestCase, name: Seq<char>, features: Seq<char>, no_default_features: bool) -> bool {
    &&& case.name@ == name
    &&& case.features@ == features
    &&& case.no_default_features == no_default_features
    &&& case.timeout_secs == Some(10u64)
    &&& case.retries is None
    &&& case.allow_failure@.len() == 0
    &&& case.arch@.len() == 0
}

fn make_case(name: &str, features: String, no_default_features: bool, command: Option<String>) -> (c: TestCase)
    ensures
        wizard_case(c, name@, features@, no_default_features),
        c.command == command,
{
    TestCase {
        name: String::from_str(name),
        features,
        no_default_features,
        command,
        timeout_secs: Some(10),
        retries: None,
        allow_failure: Vec::new(),
        arch: Vec::new(),
    }
}

/// The matrix written when no case is chosen: in English, a case with the
/// default features and one without them.
pub fn generate_default_matrix() -> (m: TestMatrix)
    ensures
        m.language@ == "en"@,
        !m.fast_fail,
        m.cases@.len() == 2,
        wizard_case(m.cases@[0], "default-features"@, ""@, false),
        m.cases@[0].command is None,
        wizard_case(m.cases@[1], "no-default-features"@, ""@, true),
        m.cases@[1].command is None,
{
    let mut cases: Vec<TestCase> = Vec::new();
    cases.push(make_case("default-features", String::from_str(""), false, None));
    cases.push(make_case("no-default-features", String::from_str(""), true, None));
    TestMatrix { language: String::from_str("en"), cases, fast_fail: false }
}

/// The kinds of case that the wizard offers.
#[derive(Debug, Clone, Copy, PartialEq, Eq, Structural)]
pub enum InitTemplate {
    /// Default features.
    DefaultFeatures,
    /// No default features, with features the user names.
    NoDefaultFeatures,
    /// Features the user names.
    AllFeatures,
    /// A command the user names.
    CustomCommand,
}

impl InitTemplate {
    /// The translation key of the template's description.
    pub fn label_key(&self) -> (r: &'static str)
        ensures
            r@ == match self {
                InitTemplate::DefaultFeatures => "init_template_default_features"@,
                InitTemplate::NoDefaultFeatures => "init_template_no_default_features"@,
                InitTemplate::AllFeatures => "init_template_all_features"@,
                InitTemplate::CustomCommand => "init_template_custom_command"@,
            },
    {
        match self {
            InitTemplate::DefaultFeatures => "init_template_default_features",
            InitTemplate::NoDefaultFeatures => "init_template_no_default_features",
            InitTemplate::AllFeatures => "init_template_all_features",
            InitTemplate::CustomCommand => "init_template_custom_command",
        }
    }

    /// The translation key of the question the template asks, if it asks one.
    pub fn prompt_key(&self) -> (r: Option<&'static str>)
        ensures
            match self {
                InitTemplate::DefaultFeatures => r is None,
                InitTemplate::NoDefaultFeatures => r matches Some(k) && k@ == "init_no_std_features_prompt"@,
                InitTemplate::AllFeatures => r matches Some(k) && k@ == "init_all_features_prompt"@,
                InitTemplate::CustomCommand => r matches Some(k) && k@ == "init_custom_command_prompt"@,
            },
    {
        match self {
            InitTemplate::DefaultFeatures => None,
            InitTemplate::NoDefaultFeatures => Some("init_no_std_features_prompt"),
            InitTemplate::AllFeatures => Some("init_all_features_prompt"),
            InitTemplate::CustomCommand => Some("init_custom_command_prompt"),
        }
    }
}

/// The templates in the order the wizard lists them.
pub fn init_templates() -> (r: Vec<InitTemplate>)
    ensures
        r@ == seq![
            InitTemplate::DefaultFeatures,
            InitTemplate::NoDefaultFeatures,
            InitTemplate::AllFeatures,
            InitTemplate::CustomCommand,
        ],
{
    let mut v = Vec::new();
    v.push(InitTemplate::DefaultFeatures);
    v.push(InitTemplate::NoDefaultFeatures);
    v.push(InitTemplate::AllFeatures);
    v.push(InitTemplate::CustomCommand);
    v
}

/// The case that a template makes from the user's answer (ignored by the
/// template that asks nothing).
pub fn template_case(template: InitTemplate, answer: String) -> (c: TestCase)
    ensures
        template == InitTemplate::DefaultFeatures ==> wizard_case(c, "default-features"@, ""@, false)
            && c.command is None,
        template == InitTemplate::NoDefaultFeatures ==> wizard_case(c, "no-default-features"@, answer@, true)
            && c.command is None,
        template == InitTemplate::AllFeatures ==> wizard_case(c, "all-features"@, answer@, false)
            && c.command is None,
        template == InitTemplate::CustomCommand ==> wizard_case(c, "custom-command"@, ""@, false)
            && c.command == Some(answer),
{
    match template {
        InitTemplate::DefaultFeatures => make_case("default-features", String::from_str(""), false, None),
        InitTemplate::NoDefaultFeatures => make_case("no-default-features", answer, true, None),
        InitTemplate::AllFeatures => make_case("all-features", answer, false, None),
        InitTemplate::CustomCommand => make_case("custom-command", String::from_str(""), false, Some(answer)),
    }
}

/// The matrix the wizard writes: the default matrix when no case was chosen,
/// else the chosen cases in the chosen language.
pub fn wizard_matrix(language: &str, selected: Vec<TestCase>) -> (m: TestMatrix)
    ensures
        selected@.len() > 0 ==> m.language@ == language@ && m.cases@ == selected@ && !m.fast_fail,
        selected@.len() == 0 ==> m.language@ == "en"@ && m.cases@.len() == 2,
{
    if selected.len() == 0 {
        generate_default_matrix()
    } else {
        TestMatrix { language: String::from_str(language), cases: selected, fast_fail: false }
    }
}

} // verus!
