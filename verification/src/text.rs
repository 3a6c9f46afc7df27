//! The human-readable messages that parse errors carry. Contracts pin
//! errors down by kind and offset; the message text is advisory.

use vstd::prelude::*;

verus! {

/// A bitset field holds bits outside its defined mask.
pub fn unknown_bits_message() -> String {
    "flag field holds undefined bits".to_owned()
}

/// A reserved field that must be zero holds a nonzero value.
pub fn reserved_message() -> String {
    "reserved field is not zero".to_owned()
}

/// The show-command word holds none of its three defined values.
pub fn show_command_message() -> String {
    "show command is not one of its defined values".to_owned()
}

/// The input ends before the structure does.
pub fn short_input_message() -> String {
    "input ends inside the structure".to_owned()
}

/// An item identifier declares a size of one or two bytes.
pub fn item_size_message() -> String {
    "item size must be zero or greater than two".to_owned()
}

/// A string cannot be decoded in the selected encoding.
pub fn decode_message() -> String {
    "string bytes cannot be decoded in the selected encoding".to_owned()
}

/// A string cannot be encoded in the selected encoding.
pub fn encode_message() -> String {
    "string cannot be encoded in the selected encoding".to_owned()
}

/// A string is too long for its length-prefixed wire form.
pub fn string_length_message() -> String {
    "string is too long for its length prefix".to_owned()
}

/// An ID list ran out of room before its zero-size terminator.
pub fn terminator_message() -> String {
    "item list ends without its terminator".to_owned()
}

/// An extension block carries an undefined signature.
pub fn signature_message() -> String {
    "extension block carries an unknown signature".to_owned()
}

/// An extension block's declared size disagrees with its signature.
pub fn block_size_message() -> String {
    "extension block size disagrees with its signature".to_owned()
}

/// A structure is larger than its container allows.
pub fn size_field_message() -> String {
    "declared size disagrees with the structure".to_owned()
}

/// An offset field points outside its structure.
pub fn offset_message() -> String {
    "offset field points outside the structure".to_owned()
}

} // verus!
