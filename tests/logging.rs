use game_logic::logger::{LogLevel, LogSource};
use game_logic::{error, info, log, read_logs, read_new_logs, unexpected, warn, KeyInput, Log, LogEnveloppe, Logger, UiLogger};

#[test]
fn messages_are_queued_then_read_once() {
    let mut sink = Logger::new();
    info(&mut sink, 4, "Generated chunk");
    warn(&mut sink, 1, String::from("Surface lost"));
    error(&mut sink, 0, "Out of memory");
    let new_logs = read_new_logs(&mut sink);
    assert_eq!(new_logs.len(), 3);
    assert_eq!(new_logs[0].level(), LogLevel::Info);
    assert_eq!(new_logs[0].source(), LogSource::Other);
    assert_eq!(new_logs[0].log().as_str(), "Generated chunk");
    assert_eq!(new_logs[1].level(), LogLevel::Warn);
    assert_eq!(new_logs[1].source(), LogSource::Renderer);
    assert_eq!(new_logs[1].log().as_str(), "Surface lost");
    assert_eq!(new_logs[2].level(), LogLevel::Error);
    assert_eq!(new_logs[2].source(), LogSource::Main);
    assert!(read_new_logs(&mut sink).is_empty());
    assert_eq!(read_logs(&sink).len(), 3);
    log(&mut sink, 2, "step");
    unexpected(&mut sink, 3, "odd");
    assert_eq!(read_logs(&sink).len(), 3);
    let more = read_new_logs(&mut sink);
    assert_eq!(more[0].level(), LogLevel::Log);
    assert_eq!(more[0].source(), LogSource::GameLogic);
    assert_eq!(more[1].level(), LogLevel::Unexpected);
    assert_eq!(more[1].source(), LogSource::Interface);
    let all = read_logs(&sink);
    assert_eq!(all.len(), 5);
    assert_eq!(all[4].log().as_str(), "odd");
}

#[test]
fn sources_have_labels() {
    assert_eq!(LogSource::Main.label(), "[Main]");
    assert_eq!(LogSource::Renderer.label(), "[Renderer]");
    assert_eq!(LogSource::GameLogic.label(), "[Game Logic]");
    assert_eq!(LogSource::Interface.label(), "[Interface]");
    assert_eq!(LogSource::Other.label(), "");
}

#[test]
fn messages_convert_from_strings() {
    let a: Log = "abc".into();
    assert!(matches!(a, Log::Str("abc")));
    let b: Log = String::from("xyz").into();
    assert_eq!(b.as_str(), "xyz");
    let c = b.clone();
    assert_eq!(c.as_str(), "xyz");
}

#[test]
fn default_filter_shows_everything() {
    let ui = UiLogger::new();
    for level in [LogLevel::Log, LogLevel::Warn, LogLevel::Unexpected, LogLevel::Error, LogLevel::Info] {
        for source in 0..6u32 {
            let e = LogEnveloppe::new(level, source, Log::Str("m"));
            assert!(ui.shows(&e));
        }
    }
}

#[test]
fn envelope_maps_source_numbers() {
    let e = LogEnveloppe::new(LogLevel::Info, 3, Log::Str("m"));
    assert_eq!(e.source(), LogSource::Interface);
    let f = LogEnveloppe::new(LogLevel::Info, 77, Log::Str("m"));
    assert_eq!(f.source(), LogSource::Other);
    let g = f.clone();
    assert_eq!(g.source(), LogSource::Other);
}

#[test]
fn key_inputs_compare() {
    assert_eq!(KeyInput::Thrust, KeyInput::Thrust);
    assert_ne!(KeyInput::Thrust, KeyInput::CamDown);
    assert!(KeyInput::Thrust < KeyInput::TurnRight);
}
