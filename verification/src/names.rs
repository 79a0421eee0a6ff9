//! Connector names.

use vstd::prelude::*;
use vstd::string::StringExecFns;

verus! {

/// The short name of a kind of connector, by the kernel's number for it.
pub open spec fn interface_label(interface: u32) -> Seq<char> {
    match interface {
        1 => "VGA"@,
        2 => "DVI-I"@,
        3 => "DVI-D"@,
        4 => "DVI-A"@,
        5 => "Composite"@,
        6 => "SVIDEO"@,
        7 => "LVDS"@,
        8 => "Component"@,
        9 => "DIN"@,
        10 => "DP"@,
        11 => "HDMI-A"@,
        12 => "HDMI-B"@,
        13 => "TV"@,
        14 => "eDP"@,
        15 => "Virtual"@,
        16 => "DSI"@,
        17 => "DPI"@,
        18 => "Writeback"@,
        19 => "SPI"@,
        20 => "USB"@,
        _ => "Unknown"@,
    }
}

/// The short name of a kind of connector, by the kernel's number for it:
/// `Interface::as_str` of the `drm` crate, on what `Interface::from` makes of
/// the number. Claims the table of names above, in which every number without
/// a name of its own is unknown.
#[verifier::external_body]
fn interface_name(interface: u32) -> (name: String)
    ensures
        name@ == interface_label(interface),
{
    drm::control::connector::Interface::from(interface).as_str().to_owned()
}

/// The character of a decimal digit.
pub open spec fn digit(d: nat) -> char {
    if d == 0 {
        '0'
    } else if d == 1 {
        '1'
    } else if d == 2 {
        '2'
    } else if d == 3 {
        '3'
    } else if d == 4 {
        '4'
    } else if d == 5 {
        '5'
    } else if d == 6 {
        '6'
    } else if d == 7 {
        '7'
    } else if d == 8 {
        '8'
    } else {
        '9'
    }
}

/// A number in decimal.
pub open spec fn decimal(n: nat) -> Seq<char>
    decreases n,
{
    if n < 10 {
        seq![digit(n)]
    } else {
        decimal(n / 10).push(digit(n % 10))
    }
}

/// A connector's name, from the short name of its kind and its number.
pub open spec fn joined_name(label: Seq<char>, id: u32) -> Seq<char> {
    label.push('-') + decimal(id as nat)
}

fn push_digit(out: &mut String, d: u32)
    requires
        d < 10,
    ensures
        final(out)@ == old(out)@.push(digit(d as nat)),
{
    proof {
        reveal_strlit("0");
        reveal_strlit("1");
        reveal_strlit("2");
        reveal_strlit("3");
        reveal_strlit("4");
        reveal_strlit("5");
        reveal_strlit("6");
        reveal_strlit("7");
        reveal_strlit("8");
        reveal_strlit("9");
    }
    let ghost before = out@;
    let text: &str = if d == 0 {
        "0"
    } else if d == 1 {
        "1"
    } else if d == 2 {
        "2"
    } else if d == 3 {
        "3"
    } else if d == 4 {
        "4"
    } else if d == 5 {
        "5"
    } else if d == 6 {
        "6"
    } else if d == 7 {
        "7"
    } else if d == 8 {
        "8"
    } else {
        "9"
    };
    assert(text@ =~= seq![digit(d as nat)]);
    out.append(text);
    assert(out@ =~= before.push(digit(d as nat)));
}

fn push_decimal(out: &mut String, n: u32)
    ensures
        final(out)@ == old(out)@ + decimal(n as nat),
    decreases n,
{
    let ghost before = out@;
    if n < 10 {
        push_digit(out, n);
        assert(out@ =~= before + decimal(n as nat));
    } else {
        push_decimal(out, n / 10);
        push_digit(out, n % 10);
        assert(out@ =~= before + decimal(n as nat));
    }
}

/// Joins the short name of a kind of connector and the connector's number.
pub fn join_name(label: &String, id: u32) -> (name: String)
    ensures
        name@ == joined_name(label@, id),
{
    let mut name: String = label.clone();
    proof {
        reveal_strlit("-");
    }
    name.append("-");
    assert(name@ =~= label@.push('-'));
    push_decimal(&mut name, id);
    name
}

/// The name of a connector ("DP-1", "HDMI-A-2"), which settings key displays by.
pub fn connector_name(interface: u32, id: u32) -> (name: String)
    ensures
        name@ == joined_name(interface_label(interface), id),
{
    join_name(&interface_name(interface), id)
}

proof fn lemma_decimal_is_digits(n: nat)
    ensures
        decimal(n).len() > 0,
        forall|i: int| 0 <= i < decimal(n).len() ==> decimal(n)[i] != '-',
    decreases n,
{
    if n >= 10 {
        lemma_decimal_is_digits(n / 10);
    }
}

proof fn lemma_decimal_injective(a: nat, b: nat)
    requires
        decimal(a) == decimal(b),
    ensures
        a == b,
    decreases a,
{
    let x = decimal(a);
    let y = decimal(b);
    lemma_decimal_is_digits(a / 10);
    lemma_decimal_is_digits(b / 10);
    if a >= 10 && b >= 10 {
        assert(x.drop_last() =~= decimal(a / 10));
        assert(y.drop_last() =~= decimal(b / 10));
        lemma_decimal_injective(a / 10, b / 10);
        assert(x.last() == digit(a % 10));
        assert(y.last() == digit(b % 10));
    } else {
        assert(x.last() == y.last());
        if a >= 10 {
            assert(x.len() > 1);
        }
        if b >= 10 {
            assert(y.len() > 1);
        }
    }
}

/// A connector's name tells its kind and its number: two connectors of one
/// name are of the same short name and have the same number.
pub proof fn connector_names_are_unambiguous(
    label: Seq<char>,
    id: u32,
    other_label: Seq<char>,
    other_id: u32,
)
    requires
        joined_name(label, id) == joined_name(other_label, other_id),
    ensures
        label == other_label,
        id == other_id,
{
    let a = joined_name(label, id);
    let b = joined_name(other_label, other_id);
    lemma_decimal_is_digits(id as nat);
    lemma_decimal_is_digits(other_id as nat);
    let p = label.len() as int;
    let q = other_label.len() as int;
    assert(a[p] == '-');
    assert(b[q] == '-');
    assert(a.len() == p + 1 + decimal(id as nat).len());
    assert(b.len() == q + 1 + decimal(other_id as nat).len());
    if p < q {
        assert(a[q] == decimal(id as nat)[q - p - 1]);
    } else if q < p {
        assert(b[p] == decimal(other_id as nat)[p - q - 1]);
    }
    assert(label =~= a.take(p));
    assert(other_label =~= b.take(p));
    assert(decimal(id as nat) =~= a.skip(p + 1));
    assert(decimal(other_id as nat) =~= b.skip(p + 1));
    lemma_decimal_injective(id as nat, other_id as nat);
}

/// No two known kinds of connector share a short name.
proof fn lemma_labels_differ(a: u32, b: u32)
    requires
        a <= 20,
        b <= 20,
        interface_label(a) == interface_label(b),
    ensures
        a == b,
{
    reveal_strlit("Unknown");
    reveal_strlit("VGA");
    reveal_strlit("DVI-I");
    reveal_strlit("DVI-D");
    reveal_strlit("DVI-A");
    reveal_strlit("Composite");
    reveal_strlit("SVIDEO");
    reveal_strlit("LVDS");
    reveal_strlit("Component");
    reveal_strlit("DIN");
    reveal_strlit("DP");
    reveal_strlit("HDMI-A");
    reveal_strlit("HDMI-B");
    reveal_strlit("TV");
    reveal_strlit("eDP");
    reveal_strlit("Virtual");
    reveal_strlit("DSI");
    reveal_strlit("DPI");
    reveal_strlit("Writeback");
    reveal_strlit("SPI");
    reveal_strlit("USB");
    let x = interface_label(a);
    let y = interface_label(b);
    assert(x.len() == y.len());
    assert(x[0] == y[0] && x[1] == y[1]);
    assert(x.len() > 2 ==> x[2] == y[2]);
    assert(x.len() > 4 ==> x[4] == y[4]);
    assert(x.len() > 5 ==> x[5] == y[5]);
}

/// Connectors of known kinds that share a name are one connector.
pub proof fn connectors_of_one_name_are_one(
    interface: u32,
    id: u32,
    other_interface: u32,
    other_id: u32,
)
    requires
        interface <= 20,
        other_interface <= 20,
        joined_name(interface_label(interface), id) == joined_name(
            interface_label(other_interface),
            other_id,
        ),
    ensures
        interface == other_interface,
        id == other_id,
{
    connector_names_are_unambiguous(
        interface_label(interface),
        id,
        interface_label(other_interface),
        other_id,
    );
    lemma_labels_differ(interface, other_interface);
}

/// The number that a sequence of digits stands for.
pub open spec fn value_of(digits: Seq<char>) -> int
    decreases digits.len(),
{
    if digits.len() == 0 {
        0
    } else {
        10 * value_of(digits.drop_last()) + (digits.last() as int - '0' as int)
    }
}

proof fn lemma_decimal_value(n: nat)
    ensures
        value_of(decimal(n)) == n,
        decimal(n).len() > 0,
        forall|i: int| 0 <= i < decimal(n).len() ==> '0' as int <= #[trigger] decimal(n)[i] as int
            <= '9' as int,
        n > 0 ==> decimal(n)[0] != '0',
        n == 0 ==> decimal(n).len() == 1,
    decreases n,
{
    if n < 10 {
        assert(decimal(n).drop_last() =~= Seq::<char>::empty());
        reveal_with_fuel(value_of, 2);
    } else {
        lemma_decimal_value(n / 10);
        assert(decimal(n).drop_last() =~= decimal(n / 10));
    }
}

/// A connector's name is its short name, a dash, and its number in decimal:
/// digits that stand for the number, without leading zeros.
pub proof fn a_name_ends_in_the_number(label: String, id: u32, name: String)
    requires
        call_ensures(join_name, (&label, id), name),
    ensures
        ({
            let n = label@.len() as int;
            let digits = name@.skip(n + 1);
            &&& name@.len() > n + 1
            &&& name@.take(n) == label@
            &&& name@[n] == '-'
            &&& value_of(digits) == id
            &&& forall|i: int|
                0 <= i < digits.len() ==> '0' as int <= #[trigger] digits[i] as int <= '9' as int
            &&& digits.len() > 1 ==> digits[0] != '0'
        }),
{
    let n = label@.len() as int;
    lemma_decimal_value(id as nat);
    assert(name@.take(n) =~= label@);
    assert(name@.skip(n + 1) =~= decimal(id as nat));
}

/// A connector is named after its kind and its number, the way that any short
/// name and number are joined.
pub proof fn connectors_are_named_by_kind_and_number(
    interface: u32,
    id: u32,
    label: String,
    name: String,
    joined: String,
)
    requires
        label@ == interface_label(interface),
        call_ensures(connector_name, (interface, id), name),
        call_ensures(join_name, (&label, id), joined),
    ensures
        name@ == joined@,
{
}

} // verus!
