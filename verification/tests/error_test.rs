use brainfuck::error::{
    Error, NO_BRACKET, NO_CELL, NO_INPUT, POINTER_OVERFLOW, POINTER_UNDERFLOW, VALUE_OVERFLOW,
    VALUE_UNDERFLOW,
};

#[test]
fn message_names_the_kind_and_the_text() {
    assert_eq!(Error::Io("broken pipe").message(), "IO error: broken pipe");
    assert_eq!(Error::Memory("value overflow.").message(), "Memory error: value overflow.");
    assert_eq!(
        Error::Jump("corresponding bracket is not found.").message(),
        "Jump error: corresponding bracket is not found."
    );
}

#[test]
fn description_is_the_text_alone() {
    assert_eq!(Error::Io("broken pipe").description(), "broken pipe");
    assert_eq!(Error::Memory("value underflow.").description(), "value underflow.");
    assert_eq!(Error::Jump("nowhere to go").description(), "nowhere to go");
}

#[test]
fn the_texts_of_the_errors() {
    assert_eq!(POINTER_OVERFLOW, "memory pointer overflow.");
    assert_eq!(POINTER_UNDERFLOW, "memory pointer underflow.");
    assert_eq!(VALUE_OVERFLOW, "value overflow.");
    assert_eq!(VALUE_UNDERFLOW, "value underflow.");
    assert_eq!(NO_CELL, "failed to get");
    assert_eq!(NO_BRACKET, "corresponding bracket is not found.");
    assert_eq!(NO_INPUT, "unexpected end of input.");
}

#[test]
fn errors_of_different_kinds_differ() {
    assert_ne!(Error::Io("x"), Error::Memory("x"));
    assert_ne!(Error::Memory("x"), Error::Jump("x"));
    assert_ne!(Error::Memory("x"), Error::Memory("y"));
    assert_eq!(Error::Jump("x"), Error::Jump("x"));
}
