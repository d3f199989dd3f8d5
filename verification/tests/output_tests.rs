use bitbar_composite_plugin::config::Config;
use bitbar_composite_plugin::config::PluginConfig;
use bitbar_composite_plugin::exec;
use bitbar_composite_plugin::output;

fn plugin(display_name: &str, command: &str, args: Vec<&str>, show_in_sub_menu: bool) -> PluginConfig {
    PluginConfig {
        display_name: display_name.to_string(),
        command: command.to_string(),
        args: args.into_iter().map(|a| a.to_string()).collect(),
        show_in_sub_menu,
    }
}

#[test]
fn format_returns_result_in_order_of_plugins_in_config() {
    let c = Config {
        plugins: vec![
            plugin("Plugin 1", "bash", vec!["-c", "echo -n 'plugin-1'"], false),
            plugin("Plugin 3", "bash", vec!["-c", "echo -n 'plugin-3'"], false),
            plugin("Plugin 2", "bash", vec!["-c", "echo -n 'plugin-2'"], false),
        ],
    };

    let e = output::new(&c);

    let execution_results = vec![
        exec::new_execution_result_with_output("Plugin 3", "plugin-3", ""),
        exec::new_execution_result_with_output("Plugin 2", "plugin-2", ""),
        exec::new_execution_result_with_output("Plugin 1", "plugin-1", ""),
    ];

    let formatted = e.format(execution_results);

    let expected = "Bit | color=orange
---
Plugin 1 | color=green
---
plugin-1
---
Plugin 3 | color=green
---
plugin-3
---
Plugin 2 | color=green
---
plugin-2";

    assert_eq!(expected, formatted.join("\n"))
}

#[test]
fn format_returns_plugin_output_in_sub_memu_format_when_config_is_true() {
    let c = Config {
        plugins: vec![plugin("Plugin 1", "bash", vec!["-c", "echo -n 'plugin-1'"], true)],
    };

    let e = output::new(&c);

    let execution_results = vec![exec::new_execution_result_with_output(
        "Plugin 1",
        "line 1\nline 2\nline 3\n",
        "",
    )];

    let formatted = e.format(execution_results);

    let expected = "Bit | color=orange
---
Plugin 1 | color=green
--line 1
--line 2
--line 3";

    assert_eq!(expected, formatted.join("\n"))
}

#[test]
fn format_renders_success_block_without_sub_menu_exactly() {
    let c = Config {
        plugins: vec![plugin("Plugin 1", "bash", vec![], false)],
    };
    let e = output::new(&c);
    let execution_results = vec![exec::new_execution_result_with_output("Plugin 1", "plugin-1", "")];

    let formatted = e.format(execution_results);

    assert_eq!(2, formatted.len());
    assert_eq!("Bit | color=orange", formatted[0]);
    assert_eq!("---\nPlugin 1 | color=green\n---\nplugin-1", formatted[1]);
}

#[test]
fn format_concatenates_stdout_and_stderr_without_separator() {
    let c = Config {
        plugins: vec![plugin("Plugin 1", "bash", vec![], false)],
    };
    let e = output::new(&c);
    let execution_results =
        vec![exec::new_execution_result_with_output("Plugin 1", "out-text", "err-text")];

    let formatted = e.format(execution_results);

    assert_eq!("---\nPlugin 1 | color=green\n---\nout-texterr-text", formatted[1]);
}

#[test]
fn format_sub_menu_drops_empty_lines_and_prefixes_the_rest() {
    let c = Config {
        plugins: vec![plugin("Plugin 1", "bash", vec![], true)],
    };
    let e = output::new(&c);
    let execution_results =
        vec![exec::new_execution_result_with_output("Plugin 1", "a\n\nb", "c\n")];

    let formatted = e.format(execution_results);

    assert_eq!("---\nPlugin 1 | color=green\n--a\n--b--c", formatted[1]);
}

#[test]
fn format_sub_menu_of_empty_streams_is_empty() {
    let c = Config {
        plugins: vec![plugin("Plugin 1", "bash", vec![], true)],
    };
    let e = output::new(&c);
    let execution_results = vec![exec::new_execution_result_with_output("Plugin 1", "", "")];

    let formatted = e.format(execution_results);

    assert_eq!("---\nPlugin 1 | color=green\n", formatted[1]);
}

#[test]
fn format_emits_header_alone_for_empty_config() {
    let c = Config { plugins: vec![] };
    let e = output::new(&c);

    let formatted = e.format(vec![]);

    assert_eq!(vec!["Bit | color=orange".to_string()], formatted);
}

#[test]
fn format_first_line_is_always_the_header() {
    let c = Config {
        plugins: vec![
            plugin("Plugin 1", "bash", vec![], false),
            plugin("Plugin 2", "bash", vec![], true),
        ],
    };
    let e = output::new(&c);
    let execution_results = vec![
        exec::new_execution_result_with_output("Plugin 2", "two", ""),
        exec::new_execution_result_with_output("Plugin 1", "one", ""),
    ];

    let formatted = e.format(execution_results);

    assert_eq!("Bit | color=orange", formatted[0]);
    assert!(formatted.join("\n").starts_with("Bit | color=orange\n"));
}

#[test]
fn format_renders_failed_plugin_in_red_between_intact_neighbours() {
    let c = Config {
        plugins: vec![
            plugin("Plugin 1", "bash", vec![], false),
            plugin("Plugin 2", "missing", vec![], false),
        ],
    };
    let e = output::new(&c);
    let failing = exec::resolve_single_plugin(
        &c.plugins[1],
        exec::Capture::LaunchError { message: "command not found".to_string() },
    );
    let execution_results =
        vec![failing, exec::new_execution_result_with_output("Plugin 1", "plugin-1", "")];

    let formatted = e.format(execution_results);

    assert_eq!("---\nPlugin 1 | color=green\n---\nplugin-1", formatted[1]);
    assert_eq!(
        "---\nPlugin 2 | color=green\n---\nError: IO(command not found) | color=red",
        formatted[2]
    );
}

#[test]
fn show_in_sub_menu_if_needed_keeps_text_when_not_requested() {
    let p = plugin("Plugin 1", "bash", vec![], false);
    assert_eq!("a\n\nb\n", output::Formatter::show_in_sub_menu_if_needed("a\n\nb\n", &p));
}

#[test]
fn show_in_sub_menu_if_needed_transforms_when_requested() {
    let p = plugin("Plugin 1", "bash", vec![], true);
    assert_eq!("--a\n--b", output::Formatter::show_in_sub_menu_if_needed("a\n\nb\n", &p));
    assert_eq!("", output::Formatter::show_in_sub_menu_if_needed("", &p));
    assert_eq!("--one line", output::Formatter::show_in_sub_menu_if_needed("one line", &p));
}

#[test]
fn format_joins_duplicate_names_to_the_first_matching_outcome() {
    // display names are assumed unique by the configuration contract; when
    // they are not, the join takes the first occurrence
    let c = Config {
        plugins: vec![
            plugin("Plugin 1", "bash", vec![], false),
            plugin("Plugin 1", "bash", vec![], false),
        ],
    };
    let e = output::new(&c);
    let execution_results = vec![
        exec::new_execution_result_with_output("Plugin 1", "first", ""),
        exec::new_execution_result_with_output("Plugin 1", "second", ""),
    ];

    let formatted = e.format(execution_results);

    assert_eq!("---\nPlugin 1 | color=green\n---\nfirst", formatted[1]);
    assert_eq!("---\nPlugin 1 | color=green\n---\nfirst", formatted[2]);
}
