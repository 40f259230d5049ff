use vstd::prelude::*;
use vstd::string::StringExecFns;
use crate::text::push_char;

verus! {

/// The decimal digit character for a value between 0 and 9.
pub open spec fn digit_char(d: int) -> char {
    if d == 0 {
        '0'
    } else if d == 1 {
        '1'
    } else if d == 2 {
        '2'
    } else if d == 3 {
        '3'
    } else if d == 4 {
        '4'
    } else if d == 5 {
        '5'
    } else if d == 6 {
        '6'
    } else if d == 7 {
        '7'
    } else if d == 8 {
        '8'
    } else {
        '9'
    }
}

/// The decimal text of a non-negative integer, most significant digit first,
/// without sign, padding or leading zeros (except for zero itself).
pub open spec fn dec_str(n: int) -> Seq<char>
    decreases n,
{
    if n < 10 {
        seq![digit_char(n)]
    } else {
        dec_str(n / 10).push(digit_char(n % 10))
    }
}

/// The decimal text of a possibly-negative reading: a minus sign before the
/// decimal text of the magnitude.
pub open spec fn dec_str_signed(n: int) -> Seq<char> {
    if n < 0 {
        seq!['-'] + dec_str(-n)
    } else {
        dec_str(n)
    }
}

fn digit_to_char(d: u64) -> (c: char)
    requires
        d < 10,
    ensures
        c == digit_char(d as int),
{
    match d {
        0 => '0',
        1 => '1',
        2 => '2',
        3 => '3',
        4 => '4',
        5 => '5',
        6 => '6',
        7 => '7',
        8 => '8',
        _ => '9',
    }
}

/// Renders a non-negative integer in decimal.
pub fn u64_to_string(n: u64) -> (r: String)
    ensures
        r@ == dec_str(n as int),
    decreases n,
{
    let mut s = if n >= 10 {
        u64_to_string(n / 10)
    } else {
        String::new()
    };
    push_char(&mut s, digit_to_char(n % 10));
    if n < 10 {
        assert(s@ =~= seq![digit_char(n as int)]);
    }
    s
}

/// Renders a signed integer in decimal.
pub fn i16_to_string(n: i16) -> (r: String)
    ensures
        r@ == dec_str_signed(n as int),
{
    if n < 0 {
        let mut s = String::new();
        push_char(&mut s, '-');
        let m: u64 = (-(n as i64)) as u64;
        let t = u64_to_string(m);
        let r = s.concat(t.as_str());
        assert(r@ =~= seq!['-'] + dec_str(-(n as int)));
        r
    } else {
        u64_to_string(n as u64)
    }
}

/// The kind of hardware address a device advertises with.
#[derive(Clone, Copy, Debug, PartialEq, Eq, Structural)]
pub enum AddressKind {
    Public,
    Random,
}

/// The report text for an optional address kind.
pub open spec fn address_kind_text(v: Option<AddressKind>) -> Seq<char> {
    match v {
        None => "Unknown"@,
        Some(AddressKind::Public) => "Public"@,
        Some(AddressKind::Random) => "Random"@,
    }
}

/// The report text for an optional numeric device class.
pub open spec fn opt_u32_text(v: Option<u32>) -> Seq<char> {
    match v {
        None => "Unknown"@,
        Some(c) => dec_str(c as int),
    }
}

/// The report text for an optional signed radio reading.
pub open spec fn opt_i16_text(v: Option<i16>) -> Seq<char> {
    match v {
        None => "Unknown"@,
        Some(c) => dec_str_signed(c as int),
    }
}

/// Human-readable form of the address kind; `"Unknown"` when absent.
pub fn address_type_to_string(address_type: Option<AddressKind>) -> (r: String)
    ensures
        r@ == address_kind_text(address_type),
{
    match address_type {
        None => String::from_str("Unknown"),
        Some(AddressKind::Public) => String::from_str("Public"),
        Some(AddressKind::Random) => String::from_str("Random"),
    }
}

/// Decimal form of the device class; `"Unknown"` when absent.
pub fn class_to_string(class: Option<u32>) -> (r: String)
    ensures
        r@ == opt_u32_text(class),
{
    match class {
        None => String::from_str("Unknown"),
        Some(c) => u64_to_string(c as u64),
    }
}

/// Decimal form of the transmit power; `"Unknown"` when absent.
pub fn tx_power_level_to_string(tx_power_level: Option<i16>) -> (r: String)
    ensures
        r@ == opt_i16_text(tx_power_level),
{
    match tx_power_level {
        None => String::from_str("Unknown"),
        Some(t) => i16_to_string(t),
    }
}

/// Decimal form of the signal strength; `"Unknown"` when absent.
pub fn rssi_to_string(rssi: Option<i16>) -> (r: String)
    ensures
        r@ == opt_i16_text(rssi),
{
    match rssi {
        None => String::from_str("Unknown"),
        Some(t) => i16_to_string(t),
    }
}

} // verus!
