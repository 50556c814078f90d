//! The translation tables of the runner's messages, one TOML document per language.
use vstd::prelude::*;
use crate::text::str_equal;

verus! {

/// English messages.
pub const EN_LOCALE: &'static str = r#"
"common.project_root_detected" = "Project root detected at: %{path}"
"common.testing_crate" = "Testing crate: %{name}"
"common.loading_test_matrix" = "Loading test matrix from: %{path}"
"common.current_os" = "Current OS: %{os}"
"common.flaky_cases_found" = "Found %{count} case(s) that are allowed to fail on this OS."
"common.no_cases_to_run" = "No test cases to run."
"common.all_tests_passed" = "All tests passed successfully!"
"common.config_read_failed_path" = "Failed to read the test matrix configuration: %{path}"
"common.config_parse_failed" = "Failed to parse the test matrix configuration."
"common.project_dir_not_found" = "Project directory not found: %{path}"
"common.cargo_fetch_failed" = "'cargo fetch' failed."
"common.manifest_read_failed" = "Failed to read the manifest: %{path}"
"common.manifest_parse_failed" = "Failed to parse the manifest."
"common.shutdown_signal" = "Shutdown signal received, stopping the remaining tests..."
"run.filtered_arch_cases" = "Filtered out %{filtered} of %{total} test case(s) based on current architecture."
"run.running_as_split_runner" = "Running as runner %{index} of %{total} with %{count} case(s)."
"run.running_as_single_runner" = "Running all test cases as a single runner."
"run.html_report_generating" = "Generating HTML report at %{path}..."
"run.html_report_failed" = "Failed to generate the HTML report:"
"run.test_timeout" = "Test case '%{name}' timed out after %{timeout} seconds."
"run.test_timeout_message" = "The test case exceeded its timeout."
"run.test_passed_on_retry" = "Test case '%{name}' passed after %{retries} retries."
"run.test_retrying" = "Test case '%{name}' failed on attempt %{attempt}, retrying (%{retries} retries allowed)..."
"run.test_failed_after_retries" = "Test case '%{name}' failed after %{retries} retries."
"run.running_test" = "Running test case '%{name}'..."
"run.command_prefix" = "Command:"
"run.test_passed" = "Test case '%{name}' passed in %{duration}s."
"run.test_failed" = "Test case '%{name}' failed in %{duration}s."
"run.build_failed_unexpected" = "The build failed unexpectedly."
"run.building_test" = "Building test case '%{name}'..."
"run.build_failed" = "Build failed in %{duration}s."
"run.build_success" = "Build succeeded in %{duration}s."
"run.test_no_binaries" = "Test case '%{name}' produced no test binaries."
"run.test_no_binaries_message" = "No test binaries were produced; there was nothing to run."
"init.file_exists" = "The file %{path} already exists."
"init.use_force" = "Use --force to overwrite it."
"init.create_parent_dir_failed" = "Failed to create the directory %{path}"
"init.write_failed" = "Failed to write %{path}"
"init.success" = "Created the configuration file %{path}"
"init.next_steps" = "Edit it to describe your test matrix, then run 'matrix-runner run'."
"report.status_passed" = "Passed"
"report.status_failed" = "Failed"
"report.status_timeout" = "Timeout"
"report.status_allowed_failure" = "Allowed Failure"
"report.status_skipped" = "Skipped"
"html_report.title" = "Test Report"
"html_report.main_header" = "Test Matrix Report"
"html_report.summary.total" = "Total"
"html_report.summary.passed" = "Passed"
"html_report.summary.failed" = "Failed"
"html_report.summary.skipped" = "Skipped"
"html_report.table.header.name" = "Name"
"html_report.table.header.status" = "Status"
"html_report.table.header.duration" = "Duration"
"html_report.table.header.retries" = "Retries"
"html_report.toggle_output" = "Show output"
"test_summary_banner" = "--- Test Summary ---"
"unexpected_failure_banner" = "UNEXPECTED FAILURE DETECTED"
"report_header_failure" = "Failure in"
"build_log" = "Build log"
"test_log" = "Test log"
"no_error_output" = "No error output."
"compiler_error_parse_failed" = "Could not parse specific compiler errors. Showing the beginning of the raw output:"
"capture_stdout_failed" = "Failed to capture stdout."
"capture_stderr_failed" = "Failed to capture stderr."
"kill_process_failed" = "Failed to kill the process: {}"
"init_wizard_welcome" = "Welcome to the matrix-runner setup wizard!"
"init_wizard_description" = "This wizard creates a TestMatrix.toml for your project."
"init_overwrite_prompt" = "%{path} already exists. Overwrite it?"
"init_user_confirmation_failed" = "Failed to read your answer."
"init_aborted" = "Aborted."
"init_detected_crate_name" = "Detected crate: %{name}"
"init_template_default_features" = "Default features"
"init_template_no_default_features" = "No default features (no_std)"
"init_template_all_features" = "Selected features"
"init_template_custom_command" = "Custom command"
"init_case_selection_prompt" = "Select the test cases to create"
"init_no_cases_selected" = "No case selected; the default matrix is used."
"init_no_std_features_prompt" = "Features to enable without default features"
"init_all_features_prompt" = "Features to enable"
"init_custom_command_prompt" = "Command to run"
"init_serialize_failed" = "Failed to serialize the configuration."
"init_write_failed" = "Failed to write %{path}"
"init_success_created" = "Successfully created `%{path}`"
"init_usage_hint" = "Run 'matrix-runner run' to execute the test matrix."
"init_cargo_toml_not_found" = "Cargo.toml was not found."
"init_cargo_toml_parse_failed" = "Cargo.toml could not be parsed."
"cli.about" = "Runs a crate's tests across a matrix of feature configurations."
"cli.lang.help" = "Language of the messages (for example en or zh-CN)."
"cli.run.about" = "Runs the test matrix."
"cli.run.jobs" = "Number of test cases to run in parallel."
"cli.run.config" = "Path to the test matrix configuration."
"cli.run.project_dir" = "Path to the project to test."
"cli.run.total_runners" = "Total number of runners sharing the matrix (CI)."
"cli.run.runner_index" = "Index of this runner, from 0 (CI)."
"cli.run.html" = "Path of an HTML report to write."
"cli.init.about" = "Creates a test matrix configuration file."
"cli.init.output" = "Path of the configuration file to create."
"cli.init.force" = "Overwrite the file if it exists."
"#;

/// Simplified Chinese messages.
pub const ZH_CN_LOCALE: &'static str = r#"
"common.project_root_detected" = "检测到项目根目录于: %{path}"
"common.testing_crate" = "正在测试的 Crate: %{name}"
"common.loading_test_matrix" = "正在加载测试矩阵: %{path}"
"common.current_os" = "当前操作系统: %{os}"
"common.flaky_cases_found" = "发现 %{count} 个允许在当前系统上失败的用例。"
"common.no_cases_to_run" = "没有需要运行的测试用例。"
"common.all_tests_passed" = "所有测试成功通过！"
"common.config_read_failed_path" = "无法读取测试矩阵配置: %{path}"
"common.config_parse_failed" = "无法解析测试矩阵配置。"
"common.project_dir_not_found" = "未找到项目目录: %{path}"
"common.cargo_fetch_failed" = "'cargo fetch' 执行失败。"
"common.manifest_read_failed" = "无法读取清单文件: %{path}"
"common.manifest_parse_failed" = "无法解析清单文件。"
"common.shutdown_signal" = "收到终止信号，正在停止剩余的测试..."
"run.filtered_arch_cases" = "根据当前架构过滤掉了 %{total} 个测试用例中的 %{filtered} 个。"
"run.running_as_split_runner" = "作为第 %{index} 个运行器（共 %{total} 个）运行 %{count} 个用例。"
"run.running_as_single_runner" = "作为单一运行器运行所有测试用例。"
"run.html_report_generating" = "正在生成 HTML 报告: %{path}..."
"run.html_report_failed" = "生成 HTML 报告失败:"
"run.test_timeout" = "测试用例 '%{name}' 在 %{timeout} 秒后超时。"
"run.test_timeout_message" = "测试用例超出了其超时时间。"
"run.test_passed_on_retry" = "测试用例 '%{name}' 在重试 %{retries} 次后通过。"
"run.test_retrying" = "测试用例 '%{name}' 第 %{attempt} 次尝试失败，正在重试（允许重试 %{retries} 次）..."
"run.test_failed_after_retries" = "测试用例 '%{name}' 在重试 %{retries} 次后仍然失败。"
"run.running_test" = "正在运行测试用例 '%{name}'..."
"run.command_prefix" = "命令:"
"run.test_passed" = "测试用例 '%{name}' 通过，用时 %{duration} 秒。"
"run.test_failed" = "测试用例 '%{name}' 失败，用时 %{duration} 秒。"
"run.build_failed_unexpected" = "构建意外失败。"
"run.building_test" = "正在构建测试用例 '%{name}'..."
"run.build_failed" = "构建失败，用时 %{duration} 秒。"
"run.build_success" = "构建成功，用时 %{duration} 秒。"
"run.test_no_binaries" = "测试用例 '%{name}' 没有生成测试可执行文件。"
"run.test_no_binaries_message" = "没有生成测试可执行文件，无需运行。"
"init.file_exists" = "文件 %{path} 已存在。"
"init.use_force" = "使用 --force 覆盖它。"
"init.create_parent_dir_failed" = "无法创建目录 %{path}"
"init.write_failed" = "无法写入 %{path}"
"init.success" = "已创建配置文件 %{path}"
"init.next_steps" = "编辑它来描述你的测试矩阵，然后运行 'matrix-runner run'。"
"report.status_passed" = "通过"
"report.status_failed" = "失败"
"report.status_timeout" = "超时"
"report.status_allowed_failure" = "允许的失败"
"report.status_skipped" = "跳过"
"html_report.title" = "测试报告"
"html_report.main_header" = "测试矩阵报告"
"html_report.summary.total" = "总计"
"html_report.summary.passed" = "通过"
"html_report.summary.failed" = "失败"
"html_report.summary.skipped" = "跳过"
"html_report.table.header.name" = "名称"
"html_report.table.header.status" = "状态"
"html_report.table.header.duration" = "耗时"
"html_report.table.header.retries" = "重试"
"html_report.toggle_output" = "显示输出"
"test_summary_banner" = "--- 测试摘要 ---"
"unexpected_failure_banner" = "检测到意外失败"
"report_header_failure" = "失败用例"
"build_log" = "构建日志"
"test_log" = "测试日志"
"no_error_output" = "没有错误输出。"
"compiler_error_parse_failed" = "无法解析具体的编译器错误。以下是原始输出的开头:"
"capture_stdout_failed" = "无法捕获标准输出。"
"capture_stderr_failed" = "无法捕获标准错误。"
"kill_process_failed" = "无法终止进程: {}"
"init_wizard_welcome" = "欢迎使用 matrix-runner 配置向导！"
"init_wizard_description" = "此向导将为你的项目创建 TestMatrix.toml。"
"init_overwrite_prompt" = "%{path} 已存在。要覆盖它吗？"
"init_user_confirmation_failed" = "无法读取你的回答。"
"init_aborted" = "已取消。"
"init_detected_crate_name" = "检测到 Crate: %{name}"
"init_template_default_features" = "默认特性"
"init_template_no_default_features" = "无默认特性（no_std）"
"init_template_all_features" = "选定的特性"
"init_template_custom_command" = "自定义命令"
"init_case_selection_prompt" = "选择要创建的测试用例"
"init_no_cases_selected" = "未选择任何用例，将使用默认矩阵。"
"init_no_std_features_prompt" = "在无默认特性时启用的特性"
"init_all_features_prompt" = "要启用的特性"
"init_custom_command_prompt" = "要运行的命令"
"init_serialize_failed" = "无法序列化配置。"
"init_write_failed" = "无法写入 %{path}"
"init_success_created" = "成功创建了 `%{path}`"
"init_usage_hint" = "运行 'matrix-runner run' 来执行测试矩阵。"
"init_cargo_toml_not_found" = "未找到 Cargo.toml。"
"init_cargo_toml_parse_failed" = "无法解析 Cargo.toml。"
"cli.about" = "在多种特性配置组成的矩阵上运行 crate 的测试。"
"cli.lang.help" = "消息的语言（例如 en 或 zh-CN）。"
"cli.run.about" = "运行测试矩阵。"
"cli.run.jobs" = "并行运行的测试用例数。"
"cli.run.config" = "测试矩阵配置文件的路径。"
"cli.run.project_dir" = "要测试的项目路径。"
"cli.run.total_runners" = "共享矩阵的运行器总数（CI）。"
"cli.run.runner_index" = "本运行器的索引，从 0 开始（CI）。"
"cli.run.html" = "要写入的 HTML 报告路径。"
"cli.init.about" = "创建测试矩阵配置文件。"
"cli.init.output" = "要创建的配置文件路径。"
"cli.init.force" = "文件已存在时覆盖它。"
"#;

/// The languages that have a translation table.
pub open spec fn has_locale(code: Seq<char>) -> bool {
    code == "en"@ || code == "zh-CN"@
}

/// The translation table of language `code`, if it has one.
pub open spec fn locale_file(code: Seq<char>) -> Option<Seq<char>> {
    if code == "en"@ {
        Some(EN_LOCALE@)
    } else if code == "zh-CN"@ {
        Some(ZH_CN_LOCALE@)
    } else {
        None
    }
}

/// The translation table (a TOML document) of language `code`, if it has one.
pub fn locale_source(code: &str) -> (r: Option<&'static str>)
    ensures
        r is Some <==> locale_file(code@) is Some,
        r matches Some(t) ==> t@ == locale_file(code@)->Some_0,
{
    if str_equal(code, "en") {
        Some(EN_LOCALE)
    } else if str_equal(code, "zh-CN") {
        Some(ZH_CN_LOCALE)
    } else {
        None
    }
}

} // verus!
