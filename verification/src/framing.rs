//! Which byte strings may be handed to the calendar parser.
//!
//! The parser of `elikoga_ical_rs` takes its input apart in two layers. The
//! lower one cuts the bytes into lines at `CR LF` and joins a line that
//! begins with a space or a tab to the line before it. The upper one reads
//! each joined line as `NAME;PARAM=value,"value":VALUE`. Both give up with a
//! panic, not with an error, on some malformed inputs. This module follows
//! the bytes through both layers far enough to keep those inputs out.
//!
//! It keeps out a little more. It does not ask whether the parser, which
//! stops at the end of the first component and at the first error, and
//! which reads no line that is not UTF-8, gets as far as the offending
//! line; nor whether the line after it, which must be complete for the
//! offending line to be read, has its line end.

use vstd::prelude::*;

verus! {

pub const TAB: u8 = 9;

pub const LF: u8 = 10;

pub const CR: u8 = 13;

pub const SPACE: u8 = 32;

pub const QUOTE: u8 = 34;

pub const COMMA: u8 = 44;

pub const COLON: u8 = 58;

pub const SEMICOLON: u8 = 59;

pub const EQUALS: u8 = 61;

/// Whether a name may hold the byte: an ASCII letter, a digit or a hyphen.
pub open spec fn is_name_byte(byte: u8) -> bool {
    ||| 48 <= byte <= 57
    ||| 65 <= byte <= 90
    ||| 97 <= byte <= 122
    ||| byte == 45
}

/// Whether no value may hold the byte: an ASCII control character other
/// than the tab.
pub open spec fn is_control_byte(byte: u8) -> bool {
    (byte < 32 || byte == 127) && byte != TAB
}

/// Where the reader of a joined line stands.
#[derive(Clone, Copy, PartialEq, Eq, Structural)]
pub enum Field {
    /// In the name, before the first `;` or `:`.
    Name,
    /// In a parameter's name, before its `=`.
    ParamName,
    /// Right after the `=` of a parameter or the `,` between two of its
    /// values: the reader looks at the next byte without asking whether
    /// there is one.
    ValueStart,
    /// In a quoted parameter value, before the closing quote.
    Quoted,
    /// Right after the closing quote of a parameter value: the reader
    /// looks at the next byte without asking whether there is one.
    AfterQuote,
    /// In an unquoted parameter value, before the next `,`, `;` or `:`.
    Unquoted,
    /// In the value, after the `:`.
    Value,
    /// Past a byte for which the reader gives an error, whatever follows.
    Rejected,
}

/// Whether a joined line may end where the reader stands.
pub open spec fn may_end(field: Field) -> bool {
    field != Field::ValueStart && field != Field::AfterQuote
}

/// Where the reader stands after one more byte of a joined line.
///
/// The reader checks a name or a parameter value as soon as it has found
/// its end, and gives an error where a byte has no place in it. So a byte
/// without a place leads to `Rejected` at once: whatever follows, the
/// reader returns before it looks any further.
pub open spec fn field_after(field: Field, byte: u8) -> Field {
    match field {
        Field::Name => if byte == COLON {
            Field::Value
        } else if byte == SEMICOLON {
            Field::ParamName
        } else if is_name_byte(byte) {
            Field::Name
        } else {
            Field::Rejected
        },
        Field::ParamName => if byte == EQUALS {
            Field::ValueStart
        } else if is_name_byte(byte) {
            Field::ParamName
        } else {
            Field::Rejected
        },
        Field::ValueStart => if byte == QUOTE {
            Field::Quoted
        } else {
            after_parameter_value(byte, unquoted_after(byte))
        },
        Field::Quoted => if byte == QUOTE {
            Field::AfterQuote
        } else if is_control_byte(byte) {
            Field::Rejected
        } else {
            Field::Quoted
        },
        Field::AfterQuote => after_parameter_value(byte, Field::Rejected),
        Field::Unquoted => after_parameter_value(byte, unquoted_after(byte)),
        Field::Value => Field::Value,
        Field::Rejected => Field::Rejected,
    }
}

/// Where a byte that ends no parameter value leads in an unquoted one.
pub open spec fn unquoted_after(byte: u8) -> Field {
    if byte == QUOTE || is_control_byte(byte) {
        Field::Rejected
    } else {
        Field::Unquoted
    }
}

/// Where a byte at the end of a parameter value leads: `,` to another
/// value, `;` to another parameter, `:` to the value, anything else to
/// `otherwise`.
pub open spec fn after_parameter_value(byte: u8, otherwise: Field) -> Field {
    if byte == COMMA {
        Field::ValueStart
    } else if byte == SEMICOLON {
        Field::ParamName
    } else if byte == COLON {
        Field::Value
    } else {
        otherwise
    }
}

/// Where the cutter of lines stands.
#[derive(Clone, Copy, PartialEq, Eq, Structural)]
pub enum Place {
    /// Before the first line, or after an empty one: no line is open.
    Fresh,
    /// Inside a line.
    InLine,
    /// After the `CR` that ends a line.
    AfterCr,
    /// After the `CR LF` that ends a line: the next byte says whether the
    /// line goes on.
    AfterLf,
    /// After the `CR` of an empty line.
    EmptyCr,
    /// At or past a byte at which the parser may panic.
    Refused,
}

/// The state of both layers after some bytes.
#[derive(Clone, Copy, PartialEq, Eq, Structural)]
pub struct Scan {
    pub place: Place,
    /// Where the reader of the open joined line stands.
    pub field: Field,
}

/// The state before any byte.
pub open spec fn scan_start() -> Scan {
    Scan { place: Place::Fresh, field: Field::Name }
}

/// The state after one more byte.
///
/// The bytes refused are: a space or a tab where no line is open; a byte
/// other than `LF` after a `CR`; and the first byte of a line that neither
/// joins nor is empty, where the reader of the joined line before it may
/// not stop. A joined line with nothing but an empty line or the end of the
/// input after it is never handed to its reader.
pub open spec fn scan_after(scan: Scan, byte: u8) -> Scan {
    match scan.place {
        Place::Fresh => if byte == SPACE || byte == TAB {
            Scan { place: Place::Refused, field: scan.field }
        } else if byte == CR {
            Scan { place: Place::AfterCr, field: Field::Name }
        } else {
            Scan { place: Place::InLine, field: field_after(Field::Name, byte) }
        },
        Place::InLine => if byte == CR {
            Scan { place: Place::AfterCr, field: scan.field }
        } else {
            Scan { place: Place::InLine, field: field_after(scan.field, byte) }
        },
        Place::AfterCr => if byte == LF {
            Scan { place: Place::AfterLf, field: scan.field }
        } else {
            Scan { place: Place::Refused, field: scan.field }
        },
        Place::AfterLf => if byte == SPACE || byte == TAB {
            Scan { place: Place::InLine, field: scan.field }
        } else if byte == CR {
            Scan { place: Place::EmptyCr, field: Field::Name }
        } else if !may_end(scan.field) {
            Scan { place: Place::Refused, field: scan.field }
        } else {
            Scan { place: Place::InLine, field: field_after(Field::Name, byte) }
        },
        Place::EmptyCr => if byte == LF {
            Scan { place: Place::Fresh, field: Field::Name }
        } else {
            Scan { place: Place::Refused, field: scan.field }
        },
        Place::Refused => scan,
    }
}

/// The state after all of `bytes`.
pub open spec fn scanned(bytes: Seq<u8>) -> Scan
    decreases bytes.len(),
{
    if bytes.len() == 0 {
        scan_start()
    } else {
        scan_after(scanned(bytes.drop_last()), bytes.last())
    }
}

/// Whether `bytes` hold nothing at which the parser may panic. On such
/// bytes the parser returns, with a document or with an error.
pub open spec fn parse_defined(bytes: Seq<u8>) -> bool {
    scanned(bytes).place != Place::Refused
}

fn name_byte(byte: u8) -> (r: bool)
    ensures
        r == is_name_byte(byte),
{
    (48 <= byte && byte <= 57) || (65 <= byte && byte <= 90) || (97 <= byte && byte <= 122) || byte
        == 45
}

fn control_byte(byte: u8) -> (r: bool)
    ensures
        r == is_control_byte(byte),
{
    (byte < 32 || byte == 127) && byte != TAB
}

fn next_unquoted(byte: u8) -> (r: Field)
    ensures
        r == unquoted_after(byte),
{
    if byte == QUOTE || control_byte(byte) {
        Field::Rejected
    } else {
        Field::Unquoted
    }
}

fn next_field(field: Field, byte: u8) -> (r: Field)
    ensures
        r == field_after(field, byte),
{
    match field {
        Field::Name => if byte == COLON {
            Field::Value
        } else if byte == SEMICOLON {
            Field::ParamName
        } else if name_byte(byte) {
            Field::Name
        } else {
            Field::Rejected
        },
        Field::ParamName => if byte == EQUALS {
            Field::ValueStart
        } else if name_byte(byte) {
            Field::ParamName
        } else {
            Field::Rejected
        },
        Field::ValueStart => if byte == QUOTE {
            Field::Quoted
        } else {
            next_after_parameter_value(byte, next_unquoted(byte))
        },
        Field::Quoted => if byte == QUOTE {
            Field::AfterQuote
        } else if control_byte(byte) {
            Field::Rejected
        } else {
            Field::Quoted
        },
        Field::AfterQuote => next_after_parameter_value(byte, Field::Rejected),
        Field::Unquoted => next_after_parameter_value(byte, next_unquoted(byte)),
        Field::Value => Field::Value,
        Field::Rejected => Field::Rejected,
    }
}

fn next_after_parameter_value(byte: u8, otherwise: Field) -> (r: Field)
    ensures
        r == after_parameter_value(byte, otherwise),
{
    if byte == COMMA {
        Field::ValueStart
    } else if byte == SEMICOLON {
        Field::ParamName
    } else if byte == COLON {
        Field::Value
    } else {
        otherwise
    }
}

fn line_may_end(field: Field) -> (r: bool)
    ensures
        r == may_end(field),
{
    match field {
        Field::ValueStart | Field::AfterQuote => false,
        _ => true,
    }
}

fn next_scan(scan: Scan, byte: u8) -> (r: Scan)
    ensures
        r == scan_after(scan, byte),
{
    match scan.place {
        Place::Fresh => if byte == SPACE || byte == TAB {
            Scan { place: Place::Refused, field: scan.field }
        } else if byte == CR {
            Scan { place: Place::AfterCr, field: Field::Name }
        } else {
            Scan { place: Place::InLine, field: next_field(Field::Name, byte) }
        },
        Place::InLine => if byte == CR {
            Scan { place: Place::AfterCr, field: scan.field }
        } else {
            Scan { place: Place::InLine, field: next_field(scan.field, byte) }
        },
        Place::AfterCr => if byte == LF {
            Scan { place: Place::AfterLf, field: scan.field }
        } else {
            Scan { place: Place::Refused, field: scan.field }
        },
        Place::AfterLf => if byte == SPACE || byte == TAB {
            Scan { place: Place::InLine, field: scan.field }
        } else if byte == CR {
            Scan { place: Place::EmptyCr, field: Field::Name }
        } else if !line_may_end(scan.field) {
            Scan { place: Place::Refused, field: scan.field }
        } else {
            Scan { place: Place::InLine, field: next_field(Field::Name, byte) }
        },
        Place::EmptyCr => if byte == LF {
            Scan { place: Place::Fresh, field: Field::Name }
        } else {
            Scan { place: Place::Refused, field: scan.field }
        },
        Place::Refused => scan,
    }
}

/// Whether `bytes` may be handed to the parser: whether they hold nothing at
/// which it may panic.
pub fn is_parsable(bytes: &[u8]) -> (r: bool)
    ensures
        r == parse_defined(bytes@),
{
    let mut scan = Scan { place: Place::Fresh, field: Field::Name };
    let mut i: usize = 0;
    while i < bytes.len()
        invariant
            i <= bytes.len(),
            scan == scanned(bytes@.take(i as int)),
        decreases bytes.len() - i,
    {
        assert(bytes@.take(i + 1).drop_last() =~= bytes@.take(i as int));
        scan = next_scan(scan, bytes[i]);
        i += 1;
    }
    assert(bytes@.take(bytes.len() as int) =~= bytes@);
    match scan.place {
        Place::Refused => false,
        _ => true,
    }
}

} // verus!
