use smart_home::devices::socket::SocketRequestHandler;
use smart_home::network::handshake::{
    received_event,
    coordinator_start, coordinator_step, outcome, peripheral_step, registration_frame,
    registration_request, reply_event, CoordinatorState, PeripheralAction, PeripheralEvent,
    PeripheralState, ACKNOWLEDGEMENT, COORDINATOR_NAME,
};
use smart_home::network::relay::{
    record_write,
    dispatch, drain_outgoing, handle_function, CommandQueue, Outgoing, Reader,
};
use smart_home::network::tcp_command::{
    command_from_groups, parse_request, TcpCommand, Verb, ENVELOPE_PATTERN,
};
use smart_home::network::tcp_entity::{listen_address, NodeType, TcpNodeConnection};
use smart_home::network::{decode, encode, recv_string, send_string, NetworkError};
use smart_home::place::home::HomeRequestHandler;

fn texts_of(outcomes: &[Result<Outgoing, NetworkError>]) -> Vec<Result<(String, String), NetworkError>> {
    outcomes
        .iter()
        .map(|outcome| match outcome {
            Ok(outgoing) => Ok((outgoing.destination.clone(), decode(&outgoing.frame).unwrap())),
            Err(e) => Err(*e),
        })
        .collect()
}

#[test]
fn a_command_shows_as_its_envelope() {
    assert_eq!(TcpCommand::new("OK", "", "127.0.0.1:4000").to_string(), "[OK: []]");
    assert_eq!(TcpCommand::new("info", "", "peer").to_string(), "[info: []]");
    assert_eq!(TcpCommand::new("register", "dev01", "peer").to_string(), "[register: [dev01]]");
    let command = TcpCommand::new("device_info", "two words", "peer");
    assert_eq!(command.command, "device_info");
    assert_eq!(command.args, "two words");
    assert_eq!(command.sender, "peer");
    assert_eq!(command.to_string(), "[device_info: [two words]]");
}

#[test]
fn the_known_verbs() {
    assert_eq!(TcpCommand::new("register", "a", "p").verb(), Verb::Register);
    assert_eq!(TcpCommand::new("OK", "", "p").verb(), Verb::Acknowledge);
    assert_eq!(TcpCommand::new("info", "", "p").verb(), Verb::Info);
    assert_eq!(TcpCommand::new("device_info", "x", "p").verb(), Verb::DeviceInfo);
    assert_eq!(TcpCommand::new("ok", "", "p").verb(), Verb::Unknown);
    assert_eq!(TcpCommand::new("Register", "", "p").verb(), Verb::Unknown);
    assert_eq!(TcpCommand::new("", "", "p").verb(), Verb::Unknown);
}

#[test]
fn a_request_parses_to_its_verb_and_arguments() {
    let command = parse_request("[register: [dev01]]", "127.0.0.1:4001").unwrap();
    assert_eq!(command.command, "register");
    assert_eq!(command.args, "dev01");
    assert_eq!(command.sender, "127.0.0.1:4001");

    let command = parse_request("[info:[x_1]]", "p").unwrap();
    assert_eq!((command.command.as_str(), command.args.as_str()), ("info", "x_1"));

    let command = parse_request("[set:  \t [42]]", "p").unwrap();
    assert_eq!((command.command.as_str(), command.args.as_str()), ("set", "42"));

    let command = parse_request("noise [a: [b]] and [c: [d]]", "p").unwrap();
    assert_eq!((command.command.as_str(), command.args.as_str()), ("a", "b"));

    let command = parse_request("[ключ: [значение]]", "p").unwrap();
    assert_eq!((command.command.as_str(), command.args.as_str()), ("ключ", "значение"));
}

#[test]
fn a_request_outside_the_grammar_is_a_parse_error() {
    for request in [
        "",
        "[garbage]",
        "[OK: []]",
        "[info: []]",
        "[a b: [c]]",
        "[a: [b c]]",
        "[a: [b]",
        "a: [b]]",
        "[a; [b]]",
        "[: [b]]",
        "[a: [b-c]]",
    ] {
        assert_eq!(parse_request(request, "p").unwrap_err(), NetworkError::Parse);
    }
}

#[test]
fn what_the_grammar_found_becomes_the_command() {
    let found = Some((String::from("register"), String::from("dev01")));
    let command = command_from_groups(found, "peer").unwrap();
    assert_eq!(command.command, "register");
    assert_eq!(command.args, "dev01");
    assert_eq!(command.sender, "peer");
    assert_eq!(command_from_groups(None, "peer").unwrap_err(), NetworkError::Parse);
    assert_eq!(ENVELOPE_PATTERN, r"\[(\w+):\s*\[(\w+)\]\]");
}

#[test]
fn the_queue_is_first_in_first_out() {
    let mut queue = CommandQueue::new();
    assert!(queue.is_empty());
    assert!(queue.pop().is_none());
    for args in ["1", "2", "3"] {
        queue.push(TcpCommand::new("info", args, "p"));
    }
    assert_eq!(queue.len(), 3);
    assert_eq!(queue.pop().unwrap().args, "1");
    queue.push(TcpCommand::new("info", "4", "p"));
    assert_eq!(queue.pop().unwrap().args, "2");
    assert_eq!(queue.pop().unwrap().args, "3");
    assert_eq!(queue.pop().unwrap().args, "4");
    assert!(queue.pop().is_none());
    assert!(queue.is_empty());
}

#[test]
fn the_sender_transmits_in_the_order_of_arrival() {
    let mut registry: TcpNodeConnection<u32> = TcpNodeConnection::new();
    registry.add_connection("peer", 7).unwrap();
    let mut handler = HomeRequestHandler::new(CommandQueue::new(), registry);
    for args in ["1", "2", "3", "4", "5"] {
        handler.commands_out.push(TcpCommand::new("info", args, "peer"));
    }
    let sent = handler.job_send_commands_out();
    let expected: Vec<Result<(String, String), NetworkError>> = ["1", "2", "3", "4", "5"]
        .iter()
        .map(|args| Ok((String::from("peer"), format!("[info: [{}]]", args))))
        .collect();
    assert_eq!(texts_of(&sent), expected);
    assert!(handler.commands_out.is_empty());
    assert!(handler.job_send_commands_out().is_empty());
}

#[test]
fn a_destination_without_a_connection_is_a_registry_miss() {
    let mut registry: TcpNodeConnection<u32> = TcpNodeConnection::new();
    registry.add_connection("known", 1).unwrap();
    let miss = dispatch(&TcpCommand::new("info", "", "unknown"), &registry);
    assert_eq!(miss.unwrap_err(), NetworkError::RegistryMiss);
    let hit = dispatch(&TcpCommand::new("info", "", "known"), &registry).unwrap();
    assert_eq!(hit.destination, "known");
    assert_eq!(hit.frame, encode("[info: []]").unwrap());

    let mut outbound = CommandQueue::new();
    outbound.push(TcpCommand::new("OK", "", "unknown"));
    outbound.push(TcpCommand::new("OK", "", "known"));
    outbound.push(TcpCommand::new("info", "", "gone"));
    let sent = drain_outgoing(&mut outbound, &registry);
    assert_eq!(
        texts_of(&sent),
        vec![
            Err(NetworkError::RegistryMiss),
            Ok((String::from("known"), String::from("[OK: []]"))),
            Err(NetworkError::RegistryMiss),
        ]
    );
    assert!(outbound.is_empty());
}

#[test]
fn registering_an_identity_twice_leaves_one_entry() {
    let mut registry: TcpNodeConnection<&str> = TcpNodeConnection::new();
    assert_eq!(registry.len(), 0);
    assert_eq!(registry.add_connection("dev01", "first"), Ok(()));
    assert_eq!(
        registry.add_connection("dev01", "second"),
        Err(String::from("TcpNodeConnection. Client already have [dev01]"))
    );
    assert_eq!(registry.len(), 1);
    assert!(registry.contains("dev01"));
    assert_eq!(registry.get("dev01"), Some(&"first"));
    assert_eq!(registry.get("dev02"), None);
    registry.add_connection("dev02", "third").unwrap();
    assert_eq!(registry.len(), 2);
    registry.remove("dev01");
    assert!(!registry.contains("dev01"));
    assert_eq!(registry.len(), 1);
    registry.remove("dev01");
    assert_eq!(registry.len(), 1);
}

#[test]
fn the_handlers_keep_a_connection_under_a_free_name_only() {
    let mut home: HomeRequestHandler<u8> =
        HomeRequestHandler::new(CommandQueue::new(), TcpNodeConnection::new());
    assert_eq!(home.save_tcp_client(1, "dev01"), Ok(()));
    assert_eq!(
        home.save_tcp_client(2, "dev01"),
        Err(String::from("HOME. tcp client with name [dev01] already exists"))
    );
    assert_eq!(home.get_tcp_client("dev01"), Some(&1));
    assert_eq!(home.get_tcp_client("dev02"), None);
    assert_eq!(home.tcp_clients.len(), 1);

    let mut socket: SocketRequestHandler<u8> =
        SocketRequestHandler::new(CommandQueue::new(), TcpNodeConnection::new());
    assert_eq!(socket.save_tcp_client(1, "home"), Ok(()));
    assert_eq!(
        socket.save_tcp_client(2, "home"),
        Err(String::from("SOCKET. tcp client with name [home] already exists"))
    );
    assert_eq!(socket.get_tcp_client("home"), Some(&1));
    assert_eq!(socket.tcp_clients.len(), 1);
}

#[test]
fn the_coordinator_answers_a_registration_with_ok_then_info() {
    let mut handler: HomeRequestHandler<u32> =
        HomeRequestHandler::new(CommandQueue::new(), TcpNodeConnection::new());
    let mut reader = Reader::new("127.0.0.1:40001", 11);
    let received = decode(&registration_frame("dev01").unwrap()).unwrap();
    assert_eq!(received, "[register: [dev01]]");
    assert_eq!(
        reader.on_request(&received, &mut handler.tcp_clients, &mut handler.commands_in),
        Ok(())
    );
    assert_eq!(handler.commands_in.len(), 1);
    assert_eq!(handler.tcp_clients.get("127.0.0.1:40001"), Some(&11));

    let unhandled = handler.job_analyze_commands();
    assert!(unhandled.is_empty());
    assert!(handler.commands_in.is_empty());
    assert_eq!(handler.commands_out.len(), 2);

    let sent = handler.job_send_commands_out();
    assert_eq!(
        texts_of(&sent),
        vec![
            Ok((String::from("127.0.0.1:40001"), String::from("[OK: []]"))),
            Ok((String::from("127.0.0.1:40001"), String::from("[info: []]"))),
        ]
    );
}

#[test]
fn a_second_registration_is_answered_again_and_registers_nothing_new() {
    let mut handler: HomeRequestHandler<u32> =
        HomeRequestHandler::new(CommandQueue::new(), TcpNodeConnection::new());
    let mut reader = Reader::new("peer", 1);
    reader.on_request("[register: [dev01]]", &mut handler.tcp_clients, &mut handler.commands_in).unwrap();
    reader.on_request("[register: [dev01]]", &mut handler.tcp_clients, &mut handler.commands_in).unwrap();
    assert_eq!(handler.tcp_clients.len(), 1);
    handler.job_analyze_commands();
    let sent = handler.job_send_commands_out();
    let texts: Vec<String> = texts_of(&sent).into_iter().map(|r| r.unwrap().1).collect();
    assert_eq!(texts, vec!["[OK: []]", "[info: []]", "[OK: []]", "[info: []]"]);
}

#[test]
fn the_coordinator_has_no_answer_to_other_verbs() {
    let mut handler: HomeRequestHandler<u32> =
        HomeRequestHandler::new(CommandQueue::new(), TcpNodeConnection::new());
    handler.commands_in.push(TcpCommand::new("device_info", "text", "a"));
    handler.commands_in.push(TcpCommand::new("register", "dev01", "b"));
    handler.commands_in.push(TcpCommand::new("reboot", "now", "c"));
    let unhandled = handler.job_analyze_commands();
    let verbs: Vec<&str> = unhandled.iter().map(|c| c.command.as_str()).collect();
    assert_eq!(verbs, vec!["device_info", "reboot"]);
    assert_eq!(handler.commands_out.len(), 2);
    assert_eq!(handler.commands_out.pop().unwrap().to_string(), "[OK: []]");
    let info = handler.commands_out.pop().unwrap();
    assert_eq!(info.to_string(), "[info: []]");
    assert_eq!(info.sender, "b");

    let mut outbound = CommandQueue::new();
    assert!(HomeRequestHandler::<u32>::analyze(&TcpCommand::new("register", "x", "p"), &mut outbound));
    assert!(!HomeRequestHandler::<u32>::analyze(&TcpCommand::new("info", "", "p"), &mut outbound));
    assert_eq!(outbound.len(), 2);
}

#[test]
fn a_peripheral_answers_info_with_its_description() {
    let mut handler: SocketRequestHandler<u32> =
        SocketRequestHandler::new(CommandQueue::new(), TcpNodeConnection::new());
    handler.save_tcp_client(3, "home").unwrap();
    handler.commands_in.push(TcpCommand::new("info", "", "home"));
    handler.commands_in.push(TcpCommand::new("register", "dev02", "home"));
    handler.commands_in.push(TcpCommand::new("info", "", "elsewhere"));
    let unhandled = handler.job_analyze_commands("[SOCKET] S01 [power is on=false]");
    assert_eq!(unhandled.len(), 1);
    assert_eq!(unhandled[0].command, "register");
    let sent = handler.job_send_commands_out();
    assert_eq!(
        texts_of(&sent),
        vec![
            Ok((
                String::from("home"),
                String::from("[device_info: [[SOCKET] S01 [power is on=false]]]")
            )),
            Err(NetworkError::RegistryMiss),
        ]
    );

    let mut outbound = CommandQueue::new();
    assert!(SocketRequestHandler::<u32>::analyze(&TcpCommand::new("info", "", "p"), "text", &mut outbound));
    assert!(!SocketRequestHandler::<u32>::analyze(&TcpCommand::new("OK", "", "p"), "text", &mut outbound));
    assert_eq!(outbound.pop().unwrap().args, "text");
    assert!(outbound.is_empty());
}

#[test]
fn a_malformed_frame_is_dropped_and_the_reading_goes_on() {
    let mut commands = CommandQueue::new();
    let mut registry: TcpNodeConnection<u32> = TcpNodeConnection::new();
    let mut reader = Reader::new("127.0.0.1:40002", 5);
    let mut stream = Vec::new();
    send_string("[garbage]", &mut stream).unwrap();
    send_string("[register: [dev01]]", &mut stream).unwrap();
    let (first, after_first) = recv_string(&stream).unwrap();
    assert_eq!(
        reader.on_request(&first, &mut registry, &mut commands),
        Err(NetworkError::Parse)
    );
    assert!(commands.is_empty());
    let (second, after_second) = recv_string(after_first).unwrap();
    assert_eq!(reader.on_request(&second, &mut registry, &mut commands), Ok(()));
    assert!(after_second.is_empty());
    assert_eq!(commands.len(), 1);
    let command = commands.pop().unwrap();
    assert_eq!(command.to_string(), "[register: [dev01]]");
    assert_eq!(command.sender, "127.0.0.1:40002");
    assert_eq!(registry.get("127.0.0.1:40002"), Some(&5));
}

#[test]
fn a_whole_stream_gives_its_commands_in_order() {
    let mut stream = Vec::new();
    send_string("[garbage]", &mut stream).unwrap();
    send_string("[register: [dev01]]", &mut stream).unwrap();
    send_string("", &mut stream).unwrap();
    send_string("[info: [all]]", &mut stream).unwrap();
    let mut commands = CommandQueue::new();
    let mut registry: TcpNodeConnection<u32> = TcpNodeConnection::new();
    let end = handle_function(&stream, "127.0.0.1:40002", 5, &mut commands, &mut registry);
    assert_eq!(end, NetworkError::FrameIo);
    assert_eq!(commands.len(), 2);
    let first = commands.pop().unwrap();
    assert_eq!(first.to_string(), "[register: [dev01]]");
    assert_eq!(first.sender, "127.0.0.1:40002");
    assert_eq!(commands.pop().unwrap().to_string(), "[info: [all]]");
}

#[test]
fn a_connection_that_ended_is_forgotten() {
    let mut commands = CommandQueue::new();
    let mut registry: TcpNodeConnection<u32> = TcpNodeConnection::new();
    registry.add_connection("other", 1).unwrap();
    let end = handle_function(&encode("[info: [x]]").unwrap(), "peer", 2, &mut commands, &mut registry);
    assert_eq!(end, NetworkError::FrameIo);
    assert_eq!(commands.len(), 1);
    assert!(!registry.contains("peer"));
    assert_eq!(registry.get("other"), Some(&1));
    assert_eq!(registry.len(), 1);

    let mut reader = Reader::new("peer", 3);
    reader.close(&mut registry);
    assert_eq!(registry.len(), 1);
    let mut reader = Reader::new("peer", 4);
    reader.on_request("[info: [x]]", &mut registry, &mut commands).unwrap();
    assert_eq!(registry.get("peer"), Some(&4));
    reader.close(&mut registry);
    assert!(!registry.contains("peer"));
    reader.close(&mut registry);
    assert_eq!(registry.len(), 1);
}

#[test]
fn a_reader_registers_its_connection_with_the_first_command() {
    let mut commands = CommandQueue::new();
    let mut registry: TcpNodeConnection<u32> = TcpNodeConnection::new();
    let mut reader = Reader::new("peer", 9);
    assert_eq!(
        reader.on_request("[garbage]", &mut registry, &mut commands),
        Err(NetworkError::Parse)
    );
    assert_eq!(registry.len(), 0);
    assert!(commands.is_empty());
    assert_eq!(
        reader.on_parsed(Err(NetworkError::Parse), &mut registry, &mut commands),
        Err(NetworkError::Parse)
    );
    assert_eq!(registry.len(), 0);
    assert_eq!(
        reader.on_parsed(Ok(TcpCommand::new("info", "x", "peer")), &mut registry, &mut commands),
        Ok(())
    );
    assert_eq!(registry.get("peer"), Some(&9));
    assert_eq!(commands.len(), 1);
    reader.on_request("[info: [y]]", &mut registry, &mut commands).unwrap();
    assert_eq!(registry.len(), 1);
    assert_eq!(commands.len(), 2);
}

#[test]
fn a_reader_keeps_the_connection_that_holds_the_identity() {
    let mut commands = CommandQueue::new();
    let mut registry: TcpNodeConnection<u32> = TcpNodeConnection::new();
    registry.add_connection("peer", 1).unwrap();
    let end = handle_function(&encode("[info: [x]]").unwrap(), "peer", 2, &mut commands, &mut registry);
    assert_eq!(end, NetworkError::FrameIo);
    assert_eq!(registry.get("peer"), Some(&1));
    assert_eq!(commands.len(), 1);

    let mut reader = Reader::new("peer", 3);
    reader.on_request("[info: [y]]", &mut registry, &mut commands).unwrap();
    assert_eq!(registry.get("peer"), Some(&1));
    reader.close(&mut registry);
    assert_eq!(registry.get("peer"), Some(&1));
}

#[test]
fn a_stream_that_closes_inside_a_prefix_ends_that_reader_only() {
    let mut commands = CommandQueue::new();
    let mut registry: TcpNodeConnection<u32> = TcpNodeConnection::new();
    registry.add_connection("other", 1).unwrap();
    commands.push(TcpCommand::new("info", "", "other"));
    let end = handle_function(&[0, 0], "127.0.0.1:40003", 2, &mut commands, &mut registry);
    assert_eq!(end, NetworkError::FrameIo);
    assert_eq!(commands.len(), 1);
    assert_eq!(registry.len(), 1);
    assert_eq!(registry.get("other"), Some(&1));

    let mut stream = encode("[info: [x]]").unwrap();
    stream.extend_from_slice(&[0, 0, 0, 9, b'[']);
    let end = handle_function(&stream, "127.0.0.1:40004", 3, &mut commands, &mut registry);
    assert_eq!(end, NetworkError::FrameIo);
    assert_eq!(commands.len(), 2);
    assert_eq!(registry.len(), 1);
    assert_eq!(registry.get("other"), Some(&1));
}

#[test]
fn a_payload_that_is_not_text_ends_the_reading() {
    let mut stream = encode("[info: [x]]").unwrap();
    stream.extend_from_slice(&[0, 0, 0, 1, 0xff]);
    stream.extend_from_slice(&encode("[info: [y]]").unwrap());
    let mut commands = CommandQueue::new();
    let mut registry: TcpNodeConnection<u32> = TcpNodeConnection::new();
    let end = handle_function(&stream, "peer", 1, &mut commands, &mut registry);
    assert_eq!(end, NetworkError::Decode);
    assert_eq!(commands.len(), 1);
}

#[test]
fn an_empty_payload_is_no_command_and_no_end() {
    assert_eq!(decode(&[0, 0, 0, 0]), Ok(String::new()));
    assert_eq!(parse_request("", "p").unwrap_err(), NetworkError::Parse);
    let mut stream = vec![0u8, 0, 0, 0];
    stream.extend_from_slice(&encode("[info: [x]]").unwrap());
    let mut commands = CommandQueue::new();
    let mut registry: TcpNodeConnection<u32> = TcpNodeConnection::new();
    handle_function(&stream, "peer", 1, &mut commands, &mut registry);
    assert_eq!(commands.len(), 1);
}

#[test]
fn a_peripheral_registers_on_the_exact_acknowledgement_only() {
    assert_eq!(ACKNOWLEDGEMENT, "[OK: []]");
    assert_eq!(COORDINATOR_NAME, "home");
    assert_eq!(registration_request("dev01"), "[register: [dev01]]");
    assert_eq!(registration_frame("dev01").unwrap(), encode("[register: [dev01]]").unwrap());
    assert_eq!(reply_event("[OK: []]"), PeripheralEvent::Acknowledged);
    for reply in ["[OK: [] ]", "[ok: []]", " [OK: []]", "[OK: []]\n", "", "[info: []]", "OK"] {
        assert_eq!(reply_event(reply), PeripheralEvent::Refused);
    }

    let (state, action) = peripheral_step(PeripheralState::Disconnected, PeripheralEvent::Start);
    assert_eq!((state, action), (PeripheralState::Connecting, PeripheralAction::Connect));
    assert_eq!(outcome(state), None);
    let (state, action) = peripheral_step(state, PeripheralEvent::Connected);
    assert_eq!((state, action), (PeripheralState::AwaitAck, PeripheralAction::SendRegistration));
    let (state, action) = peripheral_step(state, reply_event("[OK: []]"));
    assert_eq!((state, action), (PeripheralState::Registered, PeripheralAction::StoreConnection));
    assert_eq!(outcome(state), Some(Ok(())));
    assert_eq!(
        peripheral_step(state, PeripheralEvent::Refused),
        (PeripheralState::Registered, PeripheralAction::Nothing)
    );
}

#[test]
fn a_handshake_that_fails_is_not_tried_again() {
    let rejected = peripheral_step(PeripheralState::AwaitAck, reply_event("[info: []]"));
    assert_eq!(
        rejected,
        (PeripheralState::Failed(NetworkError::RegistrationRejected), PeripheralAction::GiveUp)
    );
    assert_eq!(outcome(rejected.0), Some(Err(NetworkError::RegistrationRejected)));
    assert_eq!(
        peripheral_step(PeripheralState::Connecting, PeripheralEvent::ConnectFailed),
        (PeripheralState::Failed(NetworkError::Connect), PeripheralAction::GiveUp)
    );
    assert_eq!(
        peripheral_step(PeripheralState::AwaitAck, PeripheralEvent::ReplyFailed),
        (PeripheralState::Failed(NetworkError::Connect), PeripheralAction::GiveUp)
    );
    for event in [
        PeripheralEvent::Start,
        PeripheralEvent::Connected,
        PeripheralEvent::ConnectFailed,
        PeripheralEvent::Acknowledged,
        PeripheralEvent::Refused,
        PeripheralEvent::ReplyFailed,
    ] {
        assert_eq!(peripheral_step(rejected.0, event), (rejected.0, PeripheralAction::Nothing));
    }
    assert_eq!(
        peripheral_step(PeripheralState::Disconnected, PeripheralEvent::Acknowledged),
        (PeripheralState::Disconnected, PeripheralAction::Nothing)
    );
    assert_eq!(
        peripheral_step(PeripheralState::Connecting, PeripheralEvent::Acknowledged),
        (PeripheralState::Connecting, PeripheralAction::Nothing)
    );
}

#[test]
fn the_coordinator_acknowledges_a_connection_on_register() {
    let state = coordinator_start(CoordinatorState::Accepted);
    assert_eq!(state, CoordinatorState::AwaitFirstFrame);
    assert_eq!(coordinator_step(state, Verb::Info), CoordinatorState::AwaitFirstFrame);
    assert_eq!(coordinator_step(state, Verb::Unknown), CoordinatorState::AwaitFirstFrame);
    let state = coordinator_step(state, Verb::Register);
    assert_eq!(state, CoordinatorState::Acked);
    assert_eq!(coordinator_step(state, Verb::Register), CoordinatorState::Acked);
    assert_eq!(coordinator_start(state), CoordinatorState::Acked);
    assert_eq!(
        coordinator_step(CoordinatorState::Accepted, Verb::Register),
        CoordinatorState::Accepted
    );
}

#[test]
fn a_node_listens_on_the_local_host() {
    assert_eq!(listen_address(53_000), "127.0.0.1:53000");
    assert_eq!(listen_address(0), "127.0.0.1:0");
    assert_eq!(listen_address(7), "127.0.0.1:7");
    assert_eq!(listen_address(10), "127.0.0.1:10");
    assert_eq!(listen_address(55_001), "127.0.0.1:55001");
    assert_eq!(listen_address(u32::MAX), "127.0.0.1:4294967295");
}

#[test]
fn what_a_node_type_does() {
    assert!(!NodeType::Client.listens());
    assert!(NodeType::Client.connects());
    assert!(NodeType::Server.listens());
    assert!(!NodeType::Server.connects());
    assert!(NodeType::All.listens());
    assert!(NodeType::All.connects());
}

#[test]
fn what_the_read_of_the_reply_means() {
    assert_eq!(received_event(&Ok(String::from("[OK: []]"))), PeripheralEvent::Acknowledged);
    assert_eq!(received_event(&Ok(String::from("[info: []]"))), PeripheralEvent::Refused);
    assert_eq!(received_event(&Ok(String::new())), PeripheralEvent::Refused);
    assert_eq!(received_event(&Err(NetworkError::Decode)), PeripheralEvent::Refused);
    assert_eq!(received_event(&Err(NetworkError::FrameIo)), PeripheralEvent::ReplyFailed);
    assert_eq!(received_event(&Err(NetworkError::Connect)), PeripheralEvent::ReplyFailed);

    let failed = peripheral_step(PeripheralState::AwaitAck, received_event(&Err(NetworkError::FrameIo)));
    assert_eq!(outcome(failed.0), Some(Err(NetworkError::Connect)));
    let refused = peripheral_step(PeripheralState::AwaitAck, received_event(&Err(NetworkError::Decode)));
    assert_eq!(outcome(refused.0), Some(Err(NetworkError::RegistrationRejected)));
}

#[test]
fn a_destination_whose_write_failed_is_forgotten() {
    let mut registry: TcpNodeConnection<u32> = TcpNodeConnection::new();
    registry.add_connection("a", 1).unwrap();
    registry.add_connection("b", 2).unwrap();
    record_write(&mut registry, "a", true);
    assert_eq!(registry.len(), 2);
    record_write(&mut registry, "a", false);
    assert!(!registry.contains("a"));
    assert_eq!(registry.get("b"), Some(&2));
    record_write(&mut registry, "a", false);
    record_write(&mut registry, "unknown", false);
    assert_eq!(registry.len(), 1);
    assert_eq!(
        dispatch(&TcpCommand::new("info", "", "a"), &registry).unwrap_err(),
        NetworkError::RegistryMiss
    );
}

#[test]
fn an_envelope_that_is_too_long_is_not_sent() {
    let mut registry: TcpNodeConnection<u32> = TcpNodeConnection::new();
    registry.add_connection("peer", 1).unwrap();
    let args = "x".repeat(16 * 1024 * 1024);
    let too_long = TcpCommand::new("device_info", &args, "peer");
    assert_eq!(dispatch(&too_long, &registry).unwrap_err(), NetworkError::FrameIo);
    let unknown = TcpCommand::new("device_info", &args, "nobody");
    assert_eq!(dispatch(&unknown, &registry).unwrap_err(), NetworkError::RegistryMiss);
    assert_eq!(registration_frame(&args), Err(NetworkError::FrameIo));

    let mut outbound = CommandQueue::new();
    outbound.push(TcpCommand::new("info", "1", "peer"));
    outbound.push(too_long);
    outbound.push(TcpCommand::new("info", "2", "peer"));
    let sent = drain_outgoing(&mut outbound, &registry);
    assert_eq!(
        texts_of(&sent),
        vec![
            Ok((String::from("peer"), String::from("[info: [1]]"))),
            Err(NetworkError::FrameIo),
            Ok((String::from("peer"), String::from("[info: [2]]"))),
        ]
    );
}
