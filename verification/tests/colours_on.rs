use chathole::{
    formatted_terminal, handle_service_bus, update_prompt, ChatMessage, CmdMessage, Input, Reply,
    ServerEngine, Session, Terminal,
};

fn coloured() {
    colored::control::set_override(true);
}

const LABEL: &str = "\x1B[1;34mSERVER\x1B[0m";

#[test]
fn coloured_reply_sets_off_the_label_and_the_term() {
    coloured();
    let m = Reply::Invalid("foo".to_string()).render();
    assert_eq!(m.nick, LABEL);
    assert_eq!(m.payload, "Command Error: \x1B[33mfoo\x1B[0m is not a valid command");
    assert!(m.payload.contains("foo"));
}

#[test]
fn coloured_channel_line_sets_off_name_and_count() {
    coloured();
    let m = Reply::ChannelInfo("den".to_string(), 12).render();
    assert_eq!(m.nick, LABEL);
    assert_eq!(m.payload, "channel: \x1B[33mden\x1B[0m users: \x1B[33m12\x1B[0m");
}

#[test]
fn coloured_usage_and_confirmations() {
    coloured();
    assert_eq!(Reply::Usage("/list".to_string()).render().payload, "\x1B[33m/list\x1B[0m");
    assert_eq!(
        Reply::Required("/nick <nick>".to_string()).render().payload,
        "Command Error: \x1B[33m/nick <nick>\x1B[0m is required"
    );
    assert_eq!(
        Reply::NickChanged("bob".to_string()).render().payload,
        "Command Success: Nickname changed to \x1B[33mbob\x1B[0m"
    );
    assert_eq!(
        Reply::Joined("den".to_string()).render().payload,
        "Command Success: Joined \x1B[33mden\x1B[0m"
    );
}

#[test]
fn coloured_prompt() {
    coloured();
    let mut t = Terminal::new(20);
    t.set_prompt("den".to_string());
    assert_eq!(update_prompt(&mut t), "\x1B[23;0H\x1B[0J\x1B[23;0H\x1B[1;32mDEN: \x1B[0m");
    assert_eq!(t.get_prompt(), "DEN: ");
}

#[test]
fn coloured_opening_screen() {
    coloured();
    let mut t = Terminal::new(20);
    t.header = "Head".to_string();
    t.set_prompt("den".to_string());
    assert_eq!(
        formatted_terminal(&mut t),
        "\x1B[0;0H\x1B[1;34mHead\x1B[0m\x1B[23;0H\x1B[1;32mDEN: \x1B[0m"
    );
}

#[test]
fn coloured_pane() {
    coloured();
    let mut t = Terminal::new(3);
    t.add_message(ChatMessage::new("ann".to_string(), "hi".to_string()));
    assert_eq!(
        formatted_terminal(&mut t),
        "\x1B[s\x1B[2;0H\x1B[2K\x1B[2K\x1B[2K\r\n\x1B[2;0H\x1B[2m[ann]: hi\r\n\x1B[0m\x1B[u"
    );
    assert_eq!(t.get_chat(), "[ann]: hi\r\n");
}

#[test]
fn coloured_dispatcher_answers() {
    coloured();
    let mut engine = ServerEngine::new();
    engine.start();
    let a = engine.connect().unwrap();
    engine.submit(CmdMessage::new(a, "/join general".to_string()));
    handle_service_bus(&mut engine);
    let got = &engine.clients().get_client(a).rx.queue;
    assert_eq!(got.len(), 1);
    assert_eq!(got[0].nick, LABEL);
    assert_eq!(got[0].payload, "Command Success: Joined \x1B[33mgeneral\x1B[0m");
    assert!(got[0].payload.contains("general"));
    assert_eq!(engine.clients().get_client(a).terminal.get_prompt(), "GENERAL: ");
    assert_eq!(engine.channels().list[1].name, "general");
}

#[test]
fn coloured_farewell() {
    coloured();
    let mut engine = ServerEngine::new();
    engine.start();
    let a = engine.connect().unwrap();
    let mut s = Session::new(a);
    let out = s.on_read(&mut engine, Input::End);
    assert_eq!(out, vec!["\x1B[3J\x1B[2J\x1B[?1049l\x1B[0;0H".to_string()]);
    assert_eq!(
        engine.clients().get_client(a).terminal.get_chat(),
        "[\x1B[1;34mSERVER\x1B[0m]: See you later alligator!\r\n"
    );
}

#[test]
fn coloured_label_pads_continuation_lines_by_its_bytes() {
    coloured();
    let mut t = Terminal::new(20);
    let m = Reply::Joined("x".repeat(40)).render();
    t.add_message(m);
    let first = format!(
        "[{LABEL}]: Command Success: Joined \x1B[33m{}\r\n",
        "x".repeat(60 - 24 - 5)
    );
    let second = format!("{}{}\x1B[0m\r\n", " ".repeat(LABEL.len() + 4), "x".repeat(9));
    assert_eq!(t.get_chat(), format!("{first}{second}"));
}

#[test]
fn term_with_a_reset_sequence_is_coloured_again_after_it() {
    coloured();
    let m = Reply::Invalid("a\x1B[0mb".to_string()).render();
    assert_eq!(
        m.payload,
        "Command Error: \x1B[33ma\x1B[0m\x1B[33mb\x1B[0m is not a valid command"
    );
    assert!(!m.payload.contains("a\x1B[0mb"));
}
