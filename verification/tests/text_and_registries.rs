use chathole::text::{
    find_from, leading_run, push_decimal, push_repeated, string_of, to_chars, trailing_cut,
};
use chathole::{
    classify_line, compose_pane, compose_prompt, compose_welcome, frame, init_terminal,
    is_ctrl_c, parse_command, prompt_from, read_line, resolve_verb, restore_terminal, trim_line,
    verb_named, AnsiControlCodes, Channel, ChannelList, Chat, ChatError, ChatMessage, Client,
    ClientList, CmdMessage, LineKind, MessageBus, Terminal, Verb,
};

fn say(nick: &str, payload: &str) -> ChatMessage {
    ChatMessage::new(nick.to_string(), payload.to_string())
}

#[test]
fn interrupt_signals_are_recognised_as_a_whole() {
    assert!(is_ctrl_c(&[255, 244, 255, 253, 6]));
    assert!(is_ctrl_c(&[3]));
    assert!(!is_ctrl_c(&[]));
    assert!(!is_ctrl_c(&[3, 3]));
    assert!(!is_ctrl_c(&[4]));
    assert!(!is_ctrl_c(&[255, 244, 255, 253, 6, 10]));
    assert!(!is_ctrl_c(&[255, 244, 255, 253, 7]));
    assert!(!is_ctrl_c(b"hello\n"));
}

#[test]
fn command_line_is_cut_into_three_fields_at_most() {
    let r = parse_command("/nick bob");
    assert_eq!(r.verb, "nick");
    assert_eq!(r.arg, Some("bob".to_string()));
    assert_eq!(r.rest, None);

    let r = parse_command("/join a b c d");
    assert_eq!(r.verb, "join");
    assert_eq!(r.arg, Some("a".to_string()));
    assert_eq!(r.rest, Some("b c d".to_string()));

    let r = parse_command("/list");
    assert_eq!(r.verb, "list");
    assert_eq!(r.arg, None);
    assert_eq!(r.rest, None);
}

#[test]
fn command_line_edge_cases() {
    let r = parse_command("///nick  x");
    assert_eq!(r.verb, "nick");
    assert_eq!(r.arg, Some("".to_string()));
    assert_eq!(r.rest, Some("x".to_string()));

    let r = parse_command("/");
    assert_eq!(r.verb, "");
    assert_eq!(r.arg, None);

    let r = parse_command("");
    assert_eq!(r.verb, "");
    assert_eq!(r.arg, None);

    let r = parse_command("/nick ");
    assert_eq!(r.verb, "nick");
    assert_eq!(r.arg, Some("".to_string()));
    assert_eq!(r.rest, None);

    let r = parse_command("/ nick");
    assert_eq!(r.verb, "");
    assert_eq!(r.arg, Some("nick".to_string()));

    let r = parse_command("/NiCk Bob  ");
    assert_eq!(r.verb, "NiCk");
    assert_eq!(r.arg, Some("Bob".to_string()));
    assert_eq!(r.rest, Some(" ".to_string()));
}

#[test]
fn verbs_are_read_in_any_case() {
    assert_eq!(resolve_verb("nick"), Verb::Nick);
    assert_eq!(resolve_verb("NICK"), Verb::Nick);
    assert_eq!(resolve_verb("Join"), Verb::Join);
    assert_eq!(resolve_verb("LIST"), Verb::List);
    assert_eq!(resolve_verb("hElP"), Verb::Help);
    assert_eq!(resolve_verb("foo"), Verb::Unknown);
    assert_eq!(resolve_verb(""), Verb::Unknown);
    assert_eq!(resolve_verb("nick "), Verb::Unknown);
    assert_eq!(resolve_verb("NIC\u{212A}"), Verb::Nick);
}

#[test]
fn lowered_tokens_name_verbs_exactly() {
    assert_eq!(verb_named("nick"), Verb::Nick);
    assert_eq!(verb_named("join"), Verb::Join);
    assert_eq!(verb_named("list"), Verb::List);
    assert_eq!(verb_named("help"), Verb::Help);
    assert_eq!(verb_named("NICK"), Verb::Unknown);
    assert_eq!(verb_named("nicks"), Verb::Unknown);
    assert_eq!(verb_named(""), Verb::Unknown);
}

#[test]
fn line_breaks_are_trimmed_feeds_first() {
    assert_eq!(trim_line("abc\r\n"), "abc");
    assert_eq!(trim_line("abc\n"), "abc");
    assert_eq!(trim_line("abc\n\n\n"), "abc");
    assert_eq!(trim_line("abc\r\r\n"), "abc");
    assert_eq!(trim_line("abc\r\n\r\n"), "abc\r\n");
    assert_eq!(trim_line("a\n\n\r\r"), "a\n\n");
    assert_eq!(trim_line("\n"), "");
    assert_eq!(trim_line("\r\n"), "");
    assert_eq!(trim_line(""), "");
    assert_eq!(trim_line(" abc "), " abc ");
}

#[test]
fn bytes_are_read_as_text_with_replacements() {
    assert_eq!(read_line(b"hello\r\n"), "hello");
    assert_eq!(read_line(b"\xffhi\n"), "\u{FFFD}hi");
    assert_eq!(read_line("gr\u{fc}\u{df}e\n".as_bytes()), "gr\u{fc}\u{df}e");
    assert_eq!(read_line(b"\n"), "");
}

#[test]
fn lines_are_empty_command_or_chat() {
    assert_eq!(classify_line(""), LineKind::Empty);
    assert_eq!(classify_line("/"), LineKind::Command);
    assert_eq!(classify_line("/nick x"), LineKind::Command);
    assert_eq!(classify_line("hello"), LineKind::Chat);
    assert_eq!(classify_line(" /nick"), LineKind::Chat);
    assert_eq!(classify_line("\r"), LineKind::Chat);
}

#[test]
fn framing_keeps_bytes_until_a_line_ends() {
    let mut buffer: Vec<u8> = Vec::new();
    assert_eq!(frame(&mut buffer, b"hel"), None);
    assert_eq!(buffer, b"hel".to_vec());
    assert_eq!(frame(&mut buffer, b"lo "), None);
    assert_eq!(buffer, b"hello ".to_vec());
    assert_eq!(frame(&mut buffer, b"you\r\n"), Some(b"hello you\r\n".to_vec()));
    assert!(buffer.is_empty());
    assert_eq!(frame(&mut buffer, b"\n"), Some(b"\n".to_vec()));
    assert_eq!(frame(&mut buffer, b"a\nb"), None);
    assert_eq!(buffer, b"a\nb".to_vec());
    assert_eq!(frame(&mut buffer, b""), None);
    assert_eq!(buffer, b"a\nb".to_vec());
}

#[test]
fn fixed_control_sequences() {
    let ac = AnsiControlCodes;
    assert_eq!(ac.get_terminal_size(), "\x1B[18t");
    assert_eq!(ac.get_cursor_position(), "\x1B[6n");
    assert_eq!(ac.clear_screen(), "\x1B[2J");
    assert_eq!(ac.enable_local_echo(), "\x1B[12h");
    assert_eq!(ac.disable_local_echo(), "\x1B[12l");
    assert_eq!(ac.new_line(), "\r\n");
    assert_eq!(ac.move_cursor_start_of_line(), "\x1B[1000D");
    assert_eq!(ac.clear_all(), "\x1B[3J");
    assert_eq!(ac.enter_alt_screen(), "\x1B[?1049h");
    assert_eq!(ac.exit_alt_screen(), "\x1B[?1049l");
    assert_eq!(ac.vt100(), "\x1B[?1h");
    assert_eq!(ac.disable_enter(), "\x1B[?1049l\x1B[?1l\x1B>");
    assert_eq!(ac.save_cursor(), "\x1B[s");
    assert_eq!(ac.restore_cursor(), "\x1B[u");
    assert_eq!(ac.clear_line(), "\x1B[2K");
    assert_eq!(ac.clear_lines_to_end_of_screen(), "\x1B[0J");
    assert_eq!(ac.disable_line_wrap(), "\x1B[7l");
    assert_eq!(ac.get_terminal_length(), "\x1B[18t");
    assert_eq!(ac.move_cursor_the_end_of_terminal(), "\x1B[999;0H");
}

#[test]
fn numbered_control_sequences() {
    let ac = AnsiControlCodes;
    assert_eq!(ac.move_cursor(0, 0), "\x1B[0;0H");
    assert_eq!(ac.move_cursor(23, 7), "\x1B[23;7H");
    assert_eq!(ac.move_cursor(65535, 100), "\x1B[65535;100H");
    assert_eq!(ac.move_cursor(10, 9), "\x1B[10;9H");
    assert_eq!(ac.move_cursor_up(3), "\x1B[3A");
    assert_eq!(ac.move_cursor_down(1200), "\x1B[1200B");
    assert_eq!(ac.set_terminal_size(20, 80), "\x1B[8;20;80t");
}

#[test]
fn drawn_lines_and_boxes() {
    let ac = AnsiControlCodes;
    assert_eq!(ac.draw_line(0), "");
    assert_eq!(ac.draw_line(5), "-----");
    assert_eq!(ac.draw_box(0), "\r\n\r\n");
    assert_eq!(ac.draw_box(3), "###\r\n###\r\n###");
}

#[test]
fn arrival_and_departure_sequences() {
    assert_eq!(init_terminal(), "\x1B[?1049h\x1B[3J\x1B[8;20;80t\x1B[0;0H");
    assert_eq!(restore_terminal(), "\x1B[3J\x1B[2J\x1B[?1049l\x1B[0;0H");
}

#[test]
fn screens_are_put_together_from_coloured_pieces() {
    assert_eq!(compose_prompt(20, "<P>"), "\x1B[23;0H\x1B[0J\x1B[23;0H<P>");
    assert_eq!(compose_welcome(20, "<H>", "<P>"), "\x1B[0;0H<H>\x1B[23;0H<P>");
    assert_eq!(compose_pane(2, "<C>"), "\x1B[s\x1B[2;0H\x1B[2K\x1B[2K\r\n\x1B[2;0H<C>\x1B[u");
    assert_eq!(compose_pane(0, ""), "\x1B[s\x1B[2;0H\r\n\x1B[2;0H\x1B[u");
}

#[test]
fn prompt_row_wraps_at_sixteen_bits() {
    assert_eq!(compose_prompt(0, ""), "\x1B[3;0H\x1B[0J\x1B[3;0H");
    assert_eq!(compose_prompt(65532, ""), "\x1B[65535;0H\x1B[0J\x1B[65535;0H");
    assert_eq!(compose_prompt(65533, ""), "\x1B[0;0H\x1B[0J\x1B[0;0H");
    assert_eq!(compose_prompt(65536 + 20, ""), "\x1B[23;0H\x1B[0J\x1B[23;0H");
}

#[test]
fn prompt_is_upper_case_name_colon_space() {
    let mut t = Terminal::new(20);
    assert_eq!(t.get_prompt(), "");
    t.set_prompt("general".to_string());
    assert_eq!(t.get_prompt(), "GENERAL: ");
    t.set_prompt("stra\u{df}e 9".to_string());
    assert_eq!(t.get_prompt(), "STRASSE 9: ");
    t.set_prompt("".to_string());
    assert_eq!(t.get_prompt(), ": ");
    assert_eq!(prompt_from("ABC".to_string()), "ABC: ");
}

#[test]
fn new_terminal_is_blank() {
    let t = Terminal::new(7);
    assert_eq!(t.get_header(), "");
    assert_eq!(t.get_chat(), "");
    assert_eq!(t.get_prompt(), "");
    assert_eq!(t.get_terminal_lines(), 7);
    assert_eq!(t.start_cmd, "");
    assert_eq!(t.end_cmd, "");
    assert_eq!(t.chat.len(), 0);
}

#[test]
fn message_is_wrapped_at_sixty_characters() {
    let mut chat = Chat::new(20);
    chat.add_text(say("bob", &"x".repeat(130)));
    assert_eq!(chat.len(), 3);
    let expected = format!(
        "[bob]: {}\r\n       {}\r\n       {}\r\n",
        "x".repeat(60),
        "x".repeat(60),
        "x".repeat(10)
    );
    assert_eq!(chat.get_chat(), expected);
}

#[test]
fn exactly_sixty_characters_take_one_line() {
    let mut chat = Chat::new(20);
    chat.add_text(say("n", &"y".repeat(60)));
    assert_eq!(chat.len(), 1);
    chat.add_text(say("n", &"y".repeat(61)));
    assert_eq!(chat.len(), 3);
    chat.add_text(say("n", &"y".repeat(120)));
    assert_eq!(chat.len(), 5);
}

#[test]
fn empty_payload_takes_no_line() {
    let mut chat = Chat::new(20);
    chat.add_text(say("bob", ""));
    assert_eq!(chat.len(), 0);
    assert_eq!(chat.get_chat(), "");
}

#[test]
fn continuation_lines_are_padded_by_the_label_s_bytes() {
    let mut chat = Chat::new(20);
    chat.add_text(say("\u{e9}", &"z".repeat(61)));
    let expected = format!("[\u{e9}]: {}\r\n{}z\r\n", "z".repeat(60), " ".repeat(6));
    assert_eq!(chat.get_chat(), expected);
}

#[test]
fn wrapping_counts_characters_not_bytes() {
    let mut chat = Chat::new(20);
    chat.add_text(say("n", &"\u{e9}".repeat(61)));
    assert_eq!(chat.len(), 2);
    let expected = format!("[n]: {}\r\n     \u{e9}\r\n", "\u{e9}".repeat(60));
    assert_eq!(chat.get_chat(), expected);
}

#[test]
fn pane_grows_below_its_height_and_scrolls_at_it() {
    let mut chat = Chat::new(2);
    assert_eq!(chat.number_of_lines(), 2);
    chat.add_text(say("n", "a"));
    assert_eq!(chat.get_chat(), "[n]: a\r\n");
    chat.add_text(say("n", "b"));
    assert_eq!(chat.get_chat(), "[n]: a\r\n[n]: b\r\n");
    chat.add_text(say("n", "c"));
    assert_eq!(chat.get_chat(), "[n]: b\r\n[n]: c\r\n");
    assert_eq!(chat.len(), 2);
}

#[test]
fn pane_below_its_height_may_grow_past_it() {
    let mut chat = Chat::new(2);
    chat.add_text(say("n", "a"));
    chat.add_text(say("n", &"b".repeat(121)));
    assert_eq!(chat.len(), 4);
    chat.add_text(say("n", "c"));
    assert_eq!(chat.len(), 4);
    assert!(chat.get_chat().ends_with("[n]: c\r\n"));
    assert!(!chat.get_chat().starts_with("[n]: a"));
}

#[test]
fn message_longer_than_a_full_pane_replaces_it() {
    let mut chat = Chat::new(2);
    chat.add_text(say("n", "a"));
    chat.add_text(say("n", "b"));
    chat.add_text(say("n", &"c".repeat(130)));
    assert_eq!(chat.len(), 3);
    let expected = format!(
        "[n]: {}\r\n     {}\r\n     {}\r\n",
        "c".repeat(60),
        "c".repeat(60),
        "c".repeat(10)
    );
    assert_eq!(chat.get_chat(), expected);
}

#[test]
fn pane_of_height_zero_holds_the_latest_message() {
    let mut chat = Chat::new(0);
    chat.add_text(say("n", "a"));
    assert_eq!(chat.get_chat(), "[n]: a\r\n");
    chat.add_text(say("n", "b"));
    assert_eq!(chat.get_chat(), "[n]: b\r\n");
}

#[test]
fn terminal_shows_what_its_pane_holds() {
    let mut t = Terminal::new(20);
    t.add_message(say("ann", "hi"));
    t.add_message(say("bob", "ho"));
    assert_eq!(t.get_chat(), "[ann]: hi\r\n[bob]: ho\r\n");
    assert_eq!(t.chat.len(), 2);
    let copy = t.clone();
    assert_eq!(copy.get_chat(), "[ann]: hi\r\n[bob]: ho\r\n");
    assert_eq!(copy.get_terminal_lines(), 20);
}

#[test]
fn bus_is_first_in_first_out() {
    let mut bus: MessageBus<CmdMessage> = MessageBus::new();
    assert!(bus.is_empty());
    assert_eq!(bus.len(), 0);
    assert!(bus.pop_front().is_none());
    assert_eq!(bus.push_back(CmdMessage::new(1, "/a".to_string())), Ok(()));
    assert_eq!(bus.push_back(CmdMessage::new(2, "/b".to_string())), Ok(()));
    assert_eq!(bus.push_back(CmdMessage::new(1, "/a".to_string())), Ok(()));
    assert_eq!(bus.len(), 3);
    assert!(!bus.is_empty());
    let first = bus.pop_front().unwrap();
    assert_eq!((first.id, first.payload.as_str()), (1, "/a"));
    let second = bus.pop_front().unwrap();
    assert_eq!((second.id, second.payload.as_str()), (2, "/b"));
    assert_eq!(bus.len(), 1);
    let third = bus.pop_front().unwrap();
    assert_eq!((third.id, third.payload.as_str()), (1, "/a"));
    assert!(bus.pop_front().is_none());
    let fresh: MessageBus<ChatMessage> = MessageBus::default();
    assert!(fresh.is_empty());
}

#[test]
fn messages_keep_what_they_were_made_with() {
    let m = ChatMessage::new("ann".to_string(), "hi".to_string());
    assert_eq!(m.nick, "ann");
    assert_eq!(m.payload, "hi");
    let c = m.clone();
    assert_eq!((c.nick.as_str(), c.payload.as_str()), ("ann", "hi"));
    let k = CmdMessage::new(4, "/list".to_string());
    assert_eq!(k.id, 4);
    assert_eq!(k.payload, "/list");
    let d = k.clone();
    assert_eq!((d.id, d.payload.as_str()), (4, "/list"));
}

#[test]
fn channel_keeps_subscribers_in_order() {
    let mut ch = Channel::new(3, "general".to_string());
    assert_eq!(ch.id, 3);
    assert_eq!(ch.name, "general");
    assert!(ch.get_all_subscribers().is_empty());
    assert_eq!(ch.add_subscriber(5), Ok(()));
    assert_eq!(ch.add_subscriber(2), Ok(()));
    assert_eq!(ch.add_subscriber(5), Ok(()));
    assert_eq!(ch.get_all_subscribers(), vec![5, 2, 5]);
}

#[test]
fn unsubscribing_takes_the_first_entry_only() {
    let mut ch = Channel::new(0, "c".to_string());
    for s in [5, 2, 5, 9] {
        ch.add_subscriber(s).unwrap();
    }
    assert_eq!(ch.remove_subscriber(5), Ok(()));
    assert_eq!(ch.get_all_subscribers(), vec![2, 5, 9]);
    assert_eq!(ch.remove_subscriber(9), Ok(()));
    assert_eq!(ch.get_all_subscribers(), vec![2, 5]);
}

#[test]
fn unsubscribing_a_stranger_is_an_error() {
    let mut ch = Channel::new(0, "c".to_string());
    assert_eq!(ch.remove_subscriber(1), Err(ChatError::NotSubscribed));
    ch.add_subscriber(4).unwrap();
    assert_eq!(ch.remove_subscriber(1), Err(ChatError::NotSubscribed));
    assert_eq!(ch.get_all_subscribers(), vec![4]);
}

#[test]
fn subscriber_snapshot_does_not_follow_the_channel() {
    let mut ch = Channel::new(0, "c".to_string());
    ch.add_subscriber(1).unwrap();
    let snapshot = ch.get_all_subscribers();
    ch.add_subscriber(2).unwrap();
    assert_eq!(snapshot, vec![1]);
    let copy = ch.clone();
    ch.remove_subscriber(1).unwrap();
    assert_eq!(copy.get_all_subscribers(), vec![1, 2]);
    assert_eq!(copy.name, "c");
}

#[test]
fn channel_registry_finds_the_first_of_a_name() {
    let mut channels = ChannelList::new();
    assert_eq!(channels.len(), 0);
    assert!(channels.get_channel("a".to_string()).is_none());
    assert_eq!(channels.add_channel(Channel::new(0, "broadcast".to_string())), Ok(()));
    assert_eq!(channels.add_channel(Channel::new(1, "a".to_string())), Ok(()));
    assert_eq!(channels.add_channel(Channel::new(2, "a".to_string())), Ok(()));
    assert_eq!(channels.len(), 3);
    assert_eq!(channels.get_default_channel().name, "broadcast");
    assert_eq!(channels.get_channel("a".to_string()).unwrap().id, 1);
    assert_eq!(channels.get_channel("broadcast".to_string()).unwrap().id, 0);
    assert!(channels.get_channel("A".to_string()).is_none());
    assert!(channels.get_channel("".to_string()).is_none());
    assert_eq!(ChannelList::default().len(), 0);
}

#[test]
fn channel_registry_removes_by_id() {
    let mut channels = ChannelList::new();
    for (id, name) in [(0, "x"), (7, "y"), (7, "z"), (2, "w")] {
        channels.add_channel(Channel::new(id, name.to_string())).unwrap();
    }
    assert_eq!(channels.remove_channel(7), Ok(()));
    let names: Vec<&str> = channels.list.iter().map(|c| c.name.as_str()).collect();
    assert_eq!(names, vec!["x", "z", "w"]);
    assert_eq!(channels.remove_channel(5), Err(ChatError::UnknownChannel));
    assert_eq!(channels.len(), 3);
    assert_eq!(channels.remove_channel(7), Ok(()));
    assert_eq!(channels.remove_channel(7), Err(ChatError::UnknownChannel));
    assert_eq!(channels.len(), 2);
}

#[test]
fn new_client_faces_its_channel() {
    let ch = Channel::new(4, "lobby".to_string());
    let c = Client::new(9, "ann".to_string(), 12, &ch);
    assert_eq!(c.id, 9);
    assert_eq!(c.nick, "ann");
    assert_eq!(c.channel, 4);
    assert!(c.rx.is_empty());
    assert_eq!(c.terminal.get_prompt(), "LOBBY: ");
    assert_eq!(c.terminal.get_terminal_lines(), 12);
    assert_eq!(c.terminal.get_header(), "");
    assert!(ch.get_all_subscribers().is_empty());
}

#[test]
fn client_subscribes_to_and_leaves_its_channel() {
    let mut channels = ChannelList::new();
    channels.add_channel(Channel::new(0, "broadcast".to_string())).unwrap();
    channels.add_channel(Channel::new(1, "den".to_string())).unwrap();
    let mut c = Client::new(3, "ann".to_string(), 20, channels.get_default_channel());
    assert_eq!(c.subscribe_to_channel(&mut channels), Ok(()));
    assert_eq!(channels.list[0].get_all_subscribers(), vec![3]);
    assert_eq!(c.unsubscribe_from_channel(&mut channels), Ok(()));
    assert!(channels.list[0].get_all_subscribers().is_empty());
    c.channel = 1;
    assert_eq!(c.subscribe_to_channel(&mut channels), Ok(()));
    assert_eq!(channels.list[1].get_all_subscribers(), vec![3]);
    assert_eq!(c.terminal.get_prompt(), "DEN: ");
    assert!(channels.list[0].get_all_subscribers().is_empty());
}

#[test]
fn client_outside_the_registry_gets_errors() {
    let mut channels = ChannelList::new();
    channels.add_channel(Channel::new(0, "broadcast".to_string())).unwrap();
    let mut c = Client::new(3, "ann".to_string(), 20, channels.get_default_channel());
    assert_eq!(c.unsubscribe_from_channel(&mut channels), Err(ChatError::NotSubscribed));
    c.channel = 5;
    assert_eq!(c.subscribe_to_channel(&mut channels), Err(ChatError::UnknownChannel));
    assert_eq!(c.unsubscribe_from_channel(&mut channels), Err(ChatError::UnknownChannel));
    assert!(channels.list[0].get_all_subscribers().is_empty());
    assert_eq!(c.terminal.get_prompt(), "BROADCAST: ");
}

#[test]
fn client_registry_gives_ids_in_order() {
    let ch = Channel::new(0, "broadcast".to_string());
    let mut clients = ClientList::new();
    assert_eq!(clients.len(), 0);
    assert_eq!(clients.register(Client::new(77, "a".to_string(), 20, &ch)), 0);
    assert_eq!(clients.register(Client::new(77, "b".to_string(), 20, &ch)), 1);
    assert_eq!(clients.register(Client::new(0, "c".to_string(), 20, &ch)), 2);
    assert_eq!(clients.len(), 3);
    assert_eq!(clients.get_client(0).nick, "a");
    assert_eq!(clients.get_client(1).id, 1);
    assert_eq!(clients.get_client(2).nick, "c");
    assert_eq!(clients.get_client(2).id, 2);
    assert_eq!(ClientList::default().len(), 0);
}

#[test]
fn errors_describe_themselves() {
    assert_eq!(ChatError::NotSubscribed.describe(), "subscriber is not on the channel");
    assert_eq!(ChatError::UnknownChannel.describe(), "no such channel");
}

#[test]
fn decimal_numerals() {
    let mut out = String::from("n=");
    push_decimal(&mut out, 0);
    assert_eq!(out, "n=0");
    for (n, text) in [(7usize, "7"), (10, "10"), (409, "409"), (65535, "65535")] {
        let mut out = String::new();
        push_decimal(&mut out, n);
        assert_eq!(out, text);
    }
    let mut out = String::new();
    push_decimal(&mut out, usize::MAX);
    assert_eq!(out, usize::MAX.to_string());
}

#[test]
fn repeated_characters() {
    let mut out = String::from("a");
    push_repeated(&mut out, '-', 3);
    push_repeated(&mut out, '#', 0);
    assert_eq!(out, "a---");
}

#[test]
fn characters_and_stretches() {
    let chars = to_chars("h\u{e9}llo w");
    assert_eq!(chars, vec!['h', '\u{e9}', 'l', 'l', 'o', ' ', 'w']);
    assert_eq!(string_of(&chars, 0, 7), "h\u{e9}llo w");
    assert_eq!(string_of(&chars, 1, 3), "\u{e9}l");
    assert_eq!(string_of(&chars, 4, 4), "");
    assert!(to_chars("").is_empty());
}

#[test]
fn searching_and_cutting() {
    let chars = to_chars("//ab cd  ");
    assert_eq!(leading_run(&chars, '/'), 2);
    assert_eq!(leading_run(&chars, 'a'), 0);
    assert_eq!(find_from(&chars, 0, ' '), 4);
    assert_eq!(find_from(&chars, 5, ' '), 7);
    assert_eq!(find_from(&chars, 8, ' '), 8);
    assert_eq!(find_from(&chars, 9, ' '), 9);
    assert_eq!(find_from(&chars, 0, 'z'), 9);
    assert_eq!(trailing_cut(&chars, 9, ' '), 7);
    assert_eq!(trailing_cut(&chars, 7, ' '), 7);
    assert_eq!(trailing_cut(&chars, 2, '/'), 0);
    assert_eq!(trailing_cut(&chars, 0, '/'), 0);
    let slashes = to_chars("///");
    assert_eq!(leading_run(&slashes, '/'), 3);
}
