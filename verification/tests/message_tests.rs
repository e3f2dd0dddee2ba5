use rusty_vm::builder::VMBuilder;
use rusty_vm::channel::{MessageHandler, QueueChannel};
use rusty_vm::value::{Message, Value};
use rusty_vm::vm::Fault;

fn msg(value: Value) -> Message {
    Message { from: 0, to: 0, value }
}

#[test]
fn get_message_renders_integers() {
    assert_eq!(msg(Value::I32(42)).get_message(), "42");
    assert_eq!(msg(Value::I32(-7)).get_message(), "-7");
    assert_eq!(msg(Value::I32(0)).get_message(), "0");
    assert_eq!(msg(Value::I32(i32::MIN)).get_message(), "-2147483648");
    assert_eq!(msg(Value::I64(1234567890123)).get_message(), "1234567890123");
    assert_eq!(msg(Value::I64(i64::MIN)).get_message(), "-9223372036854775808");
}

#[test]
fn get_message_renders_bool_char_string() {
    assert_eq!(msg(Value::Bool(true)).get_message(), "true");
    assert_eq!(msg(Value::Bool(false)).get_message(), "false");
    assert_eq!(msg(Value::Char('x')).get_message(), "x");
    assert_eq!(
        msg(Value::String(String::from("hello"))).get_message(),
        "hello"
    );
}

#[test]
fn get_message_renders_addresses() {
    assert_eq!(msg(Value::Address(Some(5))).get_message(), "5");
    assert_eq!(msg(Value::Address(None)).get_message(), "unknown value");
}

#[test]
fn get_message_renders_symbol_as_unknown() {
    assert_eq!(
        msg(Value::Symbol(Box::new(Value::I32(1)))).get_message(),
        "unknown value"
    );
}

#[test]
fn get_message_renders_floats_faithfully() {
    // The decimal text of a float is round-trippable back to the value.
    let text = msg(Value::F64(2.5f64.to_bits())).get_message();
    assert_eq!(text.parse::<f64>().unwrap(), 2.5);
    let text = msg(Value::F64((-0.125f64).to_bits())).get_message();
    assert_eq!(text.parse::<f64>().unwrap(), -0.125);
    let text = msg(Value::F32(1.5f32.to_bits())).get_message();
    assert_eq!(text.parse::<f32>().unwrap(), 1.5);
}

#[test]
fn out_without_channel_faults() {
    let mut builder = VMBuilder::new();
    builder
        .out(0, msg(Value::I32(1)))
        .halt()
        .build()
        .start();
    assert_eq!(
        builder.machine().get_fault(),
        Some(Fault::NoChannelConfigured)
    );
}

#[test]
fn out_sends_through_installed_channel() {
    let mut channel = QueueChannel::new();
    let mut builder = VMBuilder::new();
    builder
        .out(3, Message { from: 1, to: 2, value: Value::I32(9) })
        .halt()
        .build()
        .start_with(&mut channel);
    assert_eq!(builder.machine().get_fault(), None);

    let received = channel.receive(3).expect("one message queued on port 3");
    assert_eq!(received.from, 1);
    assert_eq!(received.to, 2);
    assert!(matches!(received.value, Value::I32(9)));
    assert!(channel.receive(3).is_none());
}

#[test]
fn queue_channel_is_fifo_per_port() {
    let mut channel = QueueChannel::new();
    channel.send(1, msg(Value::I32(1)));
    channel.send(2, msg(Value::I32(2)));
    channel.send(1, msg(Value::I32(3)));

    assert!(matches!(
        channel.receive(1).unwrap().value,
        Value::I32(1)
    ));
    assert!(matches!(
        channel.receive(2).unwrap().value,
        Value::I32(2)
    ));
    assert!(matches!(
        channel.receive(1).unwrap().value,
        Value::I32(3)
    ));
    assert!(channel.receive(1).is_none());
    assert!(channel.receive(9).is_none());
}

#[test]
fn out_messages_arrive_in_program_order() {
    let mut channel = QueueChannel::new();
    let mut builder = VMBuilder::new();
    builder
        .out(0, msg(Value::String(String::from("first"))))
        .out(0, msg(Value::String(String::from("second"))))
        .halt()
        .build()
        .start_with(&mut channel);

    let a = channel.receive(0).unwrap();
    let b = channel.receive(0).unwrap();
    assert_eq!(a.get_message(), "first");
    assert_eq!(b.get_message(), "second");
}
