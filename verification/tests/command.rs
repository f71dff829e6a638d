use pipeline_graph::command::{run, Loaded, Report};
use pipeline_graph::model::{Component, Config, InputRef};
use pipeline_graph::render::{graphviz_graph, mermaid_graph};

fn routed() -> Config {
    Config {
        sources: vec!["in".to_string()],
        transforms: vec![Component {
            id: "route".to_string(),
            inputs: vec![InputRef { component: "in".to_string(), port: None }],
        }],
        sinks: vec![Component {
            id: "out".to_string(),
            inputs: vec![InputRef { component: "route".to_string(), port: Some("a".to_string()) }],
        }],
    }
}

#[test]
fn loaded_configuration_is_printed_with_status_ok() {
    let report = run(Loaded::Config(routed()), "dot");
    assert_eq!(
        report,
        Report { stdout: Some(graphviz_graph(routed())), stderr: vec![], status: exitcode::OK }
    );
    assert_eq!(report.status, 0);
    let report = run(Loaded::Config(routed()), "mermaid");
    assert_eq!(report.stdout, Some(mermaid_graph(routed())));
    assert_eq!(report.status, exitcode::OK);
}

#[test]
fn unresolved_paths_are_a_configuration_error() {
    let report = run(Loaded::NoPaths, "dot");
    assert_eq!(report, Report { stdout: None, stderr: vec![], status: exitcode::CONFIG });
    assert_eq!(report.status, 78);
}

#[test]
fn load_errors_are_reported_and_nothing_is_printed() {
    let errors = vec!["bad toml".to_string(), "unknown sink".to_string()];
    let report = run(Loaded::Failed(errors.clone()), "dot");
    assert_eq!(report, Report { stdout: None, stderr: errors, status: exitcode::CONFIG });
}

#[test]
fn load_errors_win_over_a_bad_format_name() {
    let report = run(Loaded::Failed(vec!["broken".to_string()]), "svg");
    assert_eq!(report.status, exitcode::CONFIG);
    assert_eq!(report.stderr, vec!["broken".to_string()]);
}

#[test]
fn unsupported_format_prints_no_document() {
    let report = run(Loaded::Config(routed()), "svg");
    assert_eq!(
        report,
        Report {
            stdout: None,
            stderr: vec!["unsupported output format: svg".to_string()],
            status: exitcode::USAGE,
        }
    );
    assert_eq!(report.status, 64);
    assert!(exitcode::is_error(report.status));
}

#[test]
fn the_three_statuses_differ() {
    let ok = run(Loaded::Config(routed()), "dot").status;
    let usage = run(Loaded::Config(routed()), "png").status;
    let config = run(Loaded::NoPaths, "dot").status;
    assert!(exitcode::is_success(ok));
    assert!(exitcode::is_error(usage));
    assert!(exitcode::is_error(config));
    assert_ne!(usage, config);
}
