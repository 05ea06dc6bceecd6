use vstd::prelude::*;
use vstd::string::StrSliceExecFns;

verus! {

/// Number of data bits per character on the line.
#[derive(Clone, Copy, Debug, PartialEq, Eq, Structural)]
pub enum DataBits {
    Five,
    Six,
    Seven,
    Eight,
}

/// Number of stop bits after each character.
#[derive(Clone, Copy, Debug, PartialEq, Eq, Structural)]
pub enum StopBits {
    One,
    Two,
}

/// Parity checking mode.
#[derive(Clone, Copy, Debug, PartialEq, Eq, Structural)]
pub enum Parity {
    NoParity,
    Odd,
    Even,
}

/// The settings a device is opened with, as a client requests them.
#[derive(Debug)]
pub struct PortConfig {
    pub port: String,
    pub baud_rate: u32,
    pub data_bits: u8,
    pub stop_bits: u8,
    pub parity: String,
}

/// What kind of interface a listed device sits behind.
#[derive(Clone, Copy, Debug, PartialEq, Eq, Structural)]
pub enum PortKind {
    Usb { vid: u16, pid: u16 },
    Bluetooth,
    Pci,
    Unknown,
}

pub open spec fn data_bits_of(bits: u8) -> DataBits {
    if bits == 5 {
        DataBits::Five
    } else if bits == 6 {
        DataBits::Six
    } else if bits == 7 {
        DataBits::Seven
    } else {
        DataBits::Eight
    }
}

pub open spec fn stop_bits_of(bits: u8) -> StopBits {
    if bits == 2 {
        StopBits::Two
    } else {
        StopBits::One
    }
}

pub open spec fn parity_of(p: Seq<char>) -> Parity {
    if p == seq!['o', 'd', 'd'] {
        Parity::Odd
    } else if p == seq!['e', 'v', 'e', 'n'] {
        Parity::Even
    } else {
        Parity::NoParity
    }
}

/// Data bits for a requested count; anything outside 5..=7 means eight.
pub fn to_data_bits(bits: u8) -> (r: DataBits)
    ensures
        r == data_bits_of(bits),
{
    match bits {
        5 => DataBits::Five,
        6 => DataBits::Six,
        7 => DataBits::Seven,
        _ => DataBits::Eight,
    }
}

/// Stop bits for a requested count; anything but 2 means one.
pub fn to_stop_bits(bits: u8) -> (r: StopBits)
    ensures
        r == stop_bits_of(bits),
{
    match bits {
        2 => StopBits::Two,
        _ => StopBits::One,
    }
}

/// Whether `s` spells exactly the characters of `lit`.
fn same_text(s: &str, lit: &str) -> (r: bool)
    ensures
        r == (s@ == lit@),
{
    let n = s.unicode_len();
    if n != lit.unicode_len() {
        return false;
    }
    let mut i: usize = 0;
    while i < n
        invariant
            n == s@.len(),
            n == lit@.len(),
            0 <= i <= n,
            forall|j: int| 0 <= j < i ==> s@[j] == lit@[j],
        decreases n - i,
    {
        if s.get_char(i) != lit.get_char(i) {
            return false;
        }
        i = i + 1;
    }
    proof {
        assert(s@ =~= lit@);
    }
    true
}

/// Parity for a requested name: "odd", "even", and anything else means none.
pub fn to_parity(p: &str) -> (r: Parity)
    ensures
        r == parity_of(p@),
{
    proof {
        reveal_strlit("odd");
        reveal_strlit("even");
        assert("odd"@ =~= seq!['o', 'd', 'd']);
        assert("even"@ =~= seq!['e', 'v', 'e', 'n']);
    }
    if same_text(p, "odd") {
        Parity::Odd
    } else if same_text(p, "even") {
        Parity::Even
    } else {
        Parity::NoParity
    }
}

impl PortConfig {
    /// A field-for-field copy.
    pub fn duplicate(&self) -> (r: PortConfig)
        ensures
            r == *self,
    {
        PortConfig {
            port: self.port.clone(),
            baud_rate: self.baud_rate,
            data_bits: self.data_bits,
            stop_bits: self.stop_bits,
            parity: self.parity.clone(),
        }
    }

    pub fn data_bits_setting(&self) -> (r: DataBits)
        ensures
            r == data_bits_of(self.data_bits),
    {
        to_data_bits(self.data_bits)
    }

    pub fn stop_bits_setting(&self) -> (r: StopBits)
        ensures
            r == stop_bits_of(self.stop_bits),
    {
        to_stop_bits(self.stop_bits)
    }

    pub fn parity_setting(&self) -> (r: Parity)
        ensures
            r == parity_of(self.parity@),
    {
        to_parity(self.parity.as_str())
    }
}

/// The lower-case hex digit for `d`.
pub open spec fn hex_digit(d: nat) -> char {
    if d < 10 {
        ((d + 48) as u8) as char
    } else {
        ((d + 87) as u8) as char
    }
}

/// `v` as four lower-case hex digits, most significant first.
pub open spec fn hex4(v: u16) -> Seq<char> {
    seq![
        hex_digit((v as nat / 4096) % 16),
        hex_digit((v as nat / 256) % 16),
        hex_digit((v as nat / 16) % 16),
        hex_digit(v as nat % 16),
    ]
}


/// The label shown for a device's interface kind.
pub open spec fn port_kind_label(k: PortKind) -> Seq<char> {
    match k {
        PortKind::Usb { vid, pid } => seq!['U', 'S', 'B', ' ', '(', 'V', 'I', 'D', ':'] + hex4(vid)
            + seq![' ', 'P', 'I', 'D', ':'] + hex4(pid) + seq![')'],
        PortKind::Bluetooth => seq!['B', 'l', 'u', 'e', 't', 'o', 'o', 't', 'h'],
        PortKind::Pci => seq!['P', 'C', 'I'],
        PortKind::Unknown => seq!['U', 'n', 'k', 'n', 'o', 'w', 'n'],
    }
}

fn hex_char(d: u16) -> (c: char)
    requires
        d < 16,
    ensures
        c == hex_digit(d as nat),
{
    if d < 10 {
        ((d + 48) as u8) as char
    } else {
        ((d + 87) as u8) as char
    }
}

fn push_hex4(out: &mut Vec<char>, v: u16)
    ensures
        final(out)@ == old(out)@ + hex4(v),
{
    let ghost start = out@;
    out.push(hex_char((v / 4096) % 16));
    out.push(hex_char((v / 256) % 16));
    out.push(hex_char((v / 16) % 16));
    out.push(hex_char(v % 16));
    proof {
        assert(out@ =~= start + hex4(v));
    }
}

/// Appends the characters of `s`.
pub fn push_text(out: &mut Vec<char>, s: &str)
    ensures
        final(out)@ == old(out)@ + s@,
{
    let ghost start = out@;
    let n = s.unicode_len();
    let mut i: usize = 0;
    while i < n
        invariant
            n == s@.len(),
            0 <= i <= n,
            out@ == start + s@.subrange(0, i as int),
        decreases n - i,
    {
        out.push(s.get_char(i));
        proof {
            assert(out@ =~= start + s@.subrange(0, i + 1));
        }
        i = i + 1;
    }
    proof {
        assert(s@.subrange(0, n as int) =~= s@);
    }
}

/// Relies on `String: FromIterator<&char>`: the characters in order.
#[verifier::external_body]
pub(crate) fn string_from_chars(chars: &Vec<char>) -> (r: String)
    ensures
        r@ == chars@,
{
    chars.iter().collect()
}

/// The label for a device's interface kind, USB ones with vendor and
/// product id in hex.
pub fn port_type_string(kind: PortKind) -> (r: String)
    ensures
        r@ == port_kind_label(kind),
{
    let mut out: Vec<char> = Vec::new();
    match kind {
        PortKind::Usb { vid, pid } => {
            push_text(&mut out, "USB (VID:");
            push_hex4(&mut out, vid);
            push_text(&mut out, " PID:");
            push_hex4(&mut out, pid);
            push_text(&mut out, ")");
            proof {
                reveal_strlit("USB (VID:");
                reveal_strlit(" PID:");
                reveal_strlit(")");
                assert(out@ =~= port_kind_label(kind));
            }
        },
        PortKind::Bluetooth => {
            push_text(&mut out, "Bluetooth");
            proof {
                reveal_strlit("Bluetooth");
                assert(out@ =~= port_kind_label(kind));
            }
        },
        PortKind::Pci => {
            push_text(&mut out, "PCI");
            proof {
                reveal_strlit("PCI");
                assert(out@ =~= port_kind_label(kind));
            }
        },
        PortKind::Unknown => {
            push_text(&mut out, "Unknown");
            proof {
                reveal_strlit("Unknown");
                assert(out@ =~= port_kind_label(kind));
            }
        },
    }
    string_from_chars(&out)
}

} // verus!
