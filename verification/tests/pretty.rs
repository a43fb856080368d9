use veecle_telemetry::collector::{strip_closure_suffix, SetGlobalError};
use veecle_telemetry::pretty::format_log_line;
use veecle_telemetry::protocol::Severity;

#[test]
fn log_lines_are_aligned() {
    let ns = 1_000_000_000u64;
    assert_eq!(format_log_line(Severity::Trace, 1_000_000, "booting", &vec![]), "[Trace:     1] booting\n");
    assert_eq!(
        format_log_line(Severity::Debug, 5_000_000, "booted", &vec!["truth: true".to_string(), "lies: false".to_string()]),
        "[Debug:     5] booted [truth: true, lies: false]\n"
    );
    assert_eq!(
        format_log_line(Severity::Info, 5 * ns, "running", &vec!["mille: 1000".to_string(), format!("milli: {}", 0.001f64)]),
        "[ Info:  5000] running [mille: 1000, milli: 0.001]\n"
    );
    assert_eq!(format_log_line(Severity::Warn, 60 * ns, "running late", &vec![]), "[ Warn: 60000] running late\n");
    assert_eq!(format_log_line(Severity::Fatal, 3600 * ns, "terminating", &vec![]), "[Fatal:3600000] terminating\n");
    assert_eq!(
        format_log_line(Severity::Fatal, 3122146800 * ns, "_Tirer comme des lapins_", &vec!["translated: \"Shot like rabbits\"".to_string()]),
        "[Fatal:3122146800000] _Tirer comme des lapins_ [translated: \"Shot like rabbits\"]\n"
    );
    assert_eq!(format_log_line(Severity::Error, 0, "", &vec![]), "[Error:     0] \n");
}

#[test]
fn closure_suffixes_are_stripped() {
    assert_eq!(strip_closure_suffix("my_crate::run::{{closure}}", false), "my_crate::run");
    assert_eq!(
        strip_closure_suffix("my_crate::run::{{closure}}::{{closure}}", true),
        "my_crate::run"
    );
}

#[test]
fn set_global_error_message() {
    assert_eq!(SetGlobalError::new().message(), "a global exporter has already been set");
}

#[test]
fn smoke_test() {
    let mut output = String::new();

    let ns = 1_000_000_000u64;
    let none: Vec<String> = vec![];
    let text = |key: &str, value: &str| format!("{key}: {:?}", value);
    let messages = [
        // First some "boot time" messages with very low timestamps.
        (1_000_000, Severity::Trace, "booting", none.clone()),
        (
            5_000_000,
            Severity::Debug,
            "booted",
            vec![format!("truth: {}", true), format!("lies: {}", false)],
        ),
        (
            5 * ns,
            Severity::Info,
            "running",
            vec![format!("mille: {}", 1000i64), format!("milli: {}", 0.001f64)],
        ),
        (60 * ns, Severity::Warn, "running late", none.clone()),
        (61 * ns, Severity::Error, "really late", none.clone()),
        (3600 * ns, Severity::Fatal, "terminating", none.clone()),
        // Then some "Unix time" messages sent around 2060.
        (2703621600 * ns, Severity::Trace, "Then are _we_ inhabited by history", none.clone()),
        (
            2821816800 * ns,
            Severity::Debug,
            "Light dawns and marble heads, what the hell does this mean",
            none.clone(),
        ),
        (
            2860956000 * ns,
            Severity::Info,
            "This terror that hunts",
            vec![format!("Typed: {}", true), text("date", "1960-08-29")],
        ),
        (3118950000 * ns, Severity::Warn, "I have no words, the finest cenotaph", none.clone()),
        (
            3119036400 * ns,
            Severity::Error,
            "A sun to read the dark",
            vec![text("or", "A son to rend the dark")],
        ),
        (
            3122146800 * ns,
            Severity::Fatal,
            "_Tirer comme des lapins_",
            vec![text("translated", "Shot like rabbits")],
        ),
    ];

    for (time_unix_nano, severity, body, attributes) in messages {
        output.push_str(&format_log_line(severity, time_unix_nano, body, &attributes));
    }

    assert_eq!(
        output,
        [
            "[Trace:     1] booting\n",
            "[Debug:     5] booted [truth: true, lies: false]\n",
            "[ Info:  5000] running [mille: 1000, milli: 0.001]\n",
            "[ Warn: 60000] running late\n",
            "[Error: 61000] really late\n",
            "[Fatal:3600000] terminating\n",
            "[Trace:2703621600000] Then are _we_ inhabited by history\n",
            "[Debug:2821816800000] Light dawns and marble heads, what the hell does this mean\n",
            "[ Info:2860956000000] This terror that hunts [Typed: true, date: \"1960-08-29\"]\n",
            "[ Warn:3118950000000] I have no words, the finest cenotaph\n",
            "[Error:3119036400000] A sun to read the dark [or: \"A son to rend the dark\"]\n",
            "[Fatal:3122146800000] _Tirer comme des lapins_ [translated: \"Shot like rabbits\"]\n",
        ]
        .concat()
    );
}
