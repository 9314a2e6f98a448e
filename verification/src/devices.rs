//! Network capture devices as the protocol and the device picker show them.
use vstd::prelude::*;

use crate::text::{decimal, push_char, push_decimal, push_str};

verus! {

/// A network interface that packets can be captured on.
#[derive(Clone, Debug)]
pub struct CaptureDevice {
    pub name: String,
    pub description: String,
    /// Each IPv4 address of the interface, as its four octets.
    pub ipv4: Vec<[u8; 4]>,
}

/// What detecting the capture environment found.
#[derive(Clone, Debug)]
pub struct CaptureEnvironment {
    pub game_process_detected: bool,
    pub recommended_device: Option<String>,
    pub local_ip_detected: bool,
    pub devices: Vec<CaptureDevice>,
}

/// Dotted-decimal form of an IPv4 address (`Ipv4Addr`'s display).
pub open spec fn ipv4_text(a: [u8; 4]) -> Seq<char> {
    decimal(a@[0] as nat).push('.') + decimal(a@[1] as nat).push('.') + decimal(a@[2] as nat).push(
        '.',
    ) + decimal(a@[3] as nat)
}

pub fn push_ipv4(s: &mut String, a: [u8; 4])
    ensures
        final(s)@ == old(s)@ + ipv4_text(a),
{
    push_decimal(s, a[0] as u64);
    push_char(s, '.');
    push_decimal(s, a[1] as u64);
    push_char(s, '.');
    push_decimal(s, a[2] as u64);
    push_char(s, '.');
    push_decimal(s, a[3] as u64);
    assert(s@ =~= old(s)@ + ipv4_text(a));
}

/// Dotted-decimal form of `a`.
pub fn ipv4_string(a: [u8; 4]) -> (s: String)
    ensures
        s@ == ipv4_text(a),
{
    let mut s = String::new();
    push_ipv4(&mut s, a);
    assert(s@ =~= ipv4_text(a));
    s
}

/// The addresses in dotted-decimal form, joined by `", "`.
pub open spec fn joined_addresses(addresses: Seq<[u8; 4]>) -> Seq<char>
    decreases addresses.len(),
{
    if addresses.len() == 0 {
        Seq::empty()
    } else if addresses.len() == 1 {
        ipv4_text(addresses[0])
    } else {
        joined_addresses(addresses.drop_last()) + ", "@ + ipv4_text(addresses.last())
    }
}

/// The label of a capture device: its description (or, when that is empty,
/// its name), then ` · ` and its IPv4 addresses when it has any.
pub open spec fn device_label(device: CaptureDevice) -> Seq<char> {
    let base = if device.description@.len() == 0 {
        device.name@
    } else {
        device.description@
    };
    if device.ipv4@.len() == 0 {
        base
    } else {
        base + " · "@ + joined_addresses(device.ipv4@)
    }
}

/// A device's label starts with its description when that is not empty and
/// with its name otherwise; it is exactly that text when the device has no
/// address, and otherwise goes on with ` · ` and ends with the dotted form
/// of its last address.
pub proof fn law_device_label_parts(device: CaptureDevice)
    ensures
        device.description@.len() > 0 ==> device_label(device).take(device.description@.len() as int)
            == device.description@,
        device.description@.len() == 0 ==> device_label(device).take(device.name@.len() as int)
            == device.name@,
        device.ipv4@.len() == 0 ==> device_label(device) == (if device.description@.len() > 0 {
            device.description@
        } else {
            device.name@
        }),
        device.ipv4@.len() > 0 ==> {
            let base = if device.description@.len() > 0 {
                device.description@
            } else {
                device.name@
            };
            let label = device_label(device);
            let last = ipv4_text(device.ipv4@.last());
            &&& label.len() >= base.len() + 3 + last.len()
            &&& label.subrange(base.len() as int, base.len() + 3int) == " · "@
            &&& label.skip(label.len() - last.len()) == last
            &&& device.ipv4@.len() >= 2 ==> label.subrange(
                label.len() - last.len() - 2,
                label.len() - last.len(),
            ) == ", "@
        },
{
    let base = if device.description@.len() > 0 {
        device.description@
    } else {
        device.name@
    };
    reveal_strlit(" · ");
    reveal_strlit(", ");
    if device.ipv4@.len() == 0 {
        assert(device_label(device).take(base.len() as int) =~= base);
    } else {
        let j = joined_addresses(device.ipv4@);
        let last = ipv4_text(device.ipv4@.last());
        let label = base + " · "@ + j;
        assert(label.take(base.len() as int) =~= base);
        assert(label.subrange(base.len() as int, base.len() + 3int) =~= " · "@);
        if device.ipv4@.len() == 1 {
            assert(j == last);
        } else {
            let front = joined_addresses(device.ipv4@.drop_last());
            assert(j == front + ", "@ + last);
            assert(label =~= (base + " · "@ + front) + ", "@ + last);
            assert(label.subrange(label.len() - last.len() - 2, label.len() - last.len()) =~= ", "@);
        }
        assert(j.skip(j.len() - last.len()) =~= last);
        assert(label.skip(label.len() - last.len()) =~= last);
    }
}

/// Human-readable label for a capture device, so that a VPN interface and
/// the physical one can be told apart.
pub fn capture_device_label(device: &CaptureDevice) -> (r: String)
    ensures
        r@ == device_label(*device),
{
    let mut out = if device.description.as_str().is_empty() {
        device.name.clone()
    } else {
        device.description.clone()
    };
    if device.ipv4.len() == 0 {
        return out;
    }
    push_str(&mut out, " · ");
    let ghost base = if device.description@.len() == 0 {
        device.name@
    } else {
        device.description@
    };
    let mut i: usize = 0;
    while i < device.ipv4.len()
        invariant
            i <= device.ipv4@.len(),
            device.ipv4@.len() > 0,
            out@ == base + " · "@ + joined_addresses(device.ipv4@.take(i as int)),
        decreases device.ipv4.len() - i,
    {
        let ghost before = out@;
        if i > 0 {
            push_str(&mut out, ", ");
        }
        push_ipv4(&mut out, device.ipv4[i]);
        i += 1;
        proof {
            let t = device.ipv4@.take(i as int);
            assert(t.drop_last() =~= device.ipv4@.take(i - 1));
            assert(t.last() == device.ipv4@[i - 1]);
            if i == 1 {
                assert(device.ipv4@.take(0).len() == 0);
                assert(joined_addresses(device.ipv4@.take(0)) =~= Seq::<char>::empty());
            }
            assert(out@ =~= base + " · "@ + joined_addresses(t));
        }
    }
    assert(device.ipv4@.take(device.ipv4@.len() as int) =~= device.ipv4@);
    out
}

} // verus!
