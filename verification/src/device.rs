//! Identity and bring-up settings of each firmware image built from this
//! project, and the receiver's check of which output script is its own.

use vstd::prelude::*;
use bitcoin::ScriptBuf;
use bitcoin::WPubkeyHash;

verus! {

/// The open-source test vendor id shared by every image.
pub const USB_VENDOR_ID: u16 = 0x16c0;

/// Each byte of the receiver's fixed public key hash.
pub const RECEIVER_KEY_HASH_BYTE: u8 = 0x22;

/// The firmware images of the project that talk over USB.
#[derive(PartialEq, Eq, Structural, Clone, Copy, Debug)]
pub enum FirmwareRole {
    /// Bare CDC echo used to bring the USB link up.
    Echo,
    /// Payjoin v1 receiver.
    Receiver,
    /// Payjoin v1 sender.
    Sender,
    /// Payjoin v2 `ShortId` probe.
    V2Probe,
}

/// USB product id of each image.
pub open spec fn product_id_of(role: FirmwareRole) -> u16 {
    match role {
        FirmwareRole::Echo => 0x27dd,
        FirmwareRole::Receiver => 0x27dd,
        FirmwareRole::Sender => 0x27de,
        FirmwareRole::V2Probe => 0x27df,
    }
}

/// Heap size, in bytes, that each image reserves for its allocator.
pub open spec fn heap_bytes_of(role: FirmwareRole) -> nat {
    match role {
        FirmwareRole::Echo => 0,
        FirmwareRole::Receiver => 16384,
        FirmwareRole::Sender => 16384,
        FirmwareRole::V2Probe => 8192,
    }
}

/// Whether an image waits for the host to open the port (DTR) before it
/// runs its protocol.
pub open spec fn waits_for_port_open_of(role: FirmwareRole) -> bool {
    role == FirmwareRole::Sender || role == FirmwareRole::V2Probe
}

/// USB product id of `role`.
pub fn usb_product_id(role: FirmwareRole) -> (pid: u16)
    ensures
        pid == product_id_of(role),
        (role == FirmwareRole::Echo || role == FirmwareRole::Receiver) ==> pid == 0x27ddu16,
        role == FirmwareRole::Sender ==> pid == 0x27deu16,
        role == FirmwareRole::V2Probe ==> pid == 0x27dfu16,
{
    proof {
        lemma_role_settings(role);
    }
    match role {
        FirmwareRole::Echo => 0x27dd,
        FirmwareRole::Receiver => 0x27dd,
        FirmwareRole::Sender => 0x27de,
        FirmwareRole::V2Probe => 0x27df,
    }
}

/// USB product string of `role`.
pub fn usb_product_name(role: FirmwareRole) -> (name: &'static str)
    ensures
        role == FirmwareRole::Echo ==> name@ == "harness-device USB CDC"@,
        role == FirmwareRole::Receiver ==> name@ == "harness-device receiver"@,
        role == FirmwareRole::Sender ==> name@ == "harness-device sender"@,
        role == FirmwareRole::V2Probe ==> name@ == "harness-device v2 probe"@,
{
    match role {
        FirmwareRole::Echo => "harness-device USB CDC",
        FirmwareRole::Receiver => "harness-device receiver",
        FirmwareRole::Sender => "harness-device sender",
        FirmwareRole::V2Probe => "harness-device v2 probe",
    }
}

/// USB serial-number string of `role`.
pub fn usb_serial_number(role: FirmwareRole) -> (serial: &'static str)
    ensures
        (role == FirmwareRole::Echo || role == FirmwareRole::Receiver) ==> serial@ == "0001"@,
        role == FirmwareRole::Sender ==> serial@ == "0002"@,
        role == FirmwareRole::V2Probe ==> serial@ == "0003"@,
{
    match role {
        FirmwareRole::Echo => "0001",
        FirmwareRole::Receiver => "0001",
        FirmwareRole::Sender => "0002",
        FirmwareRole::V2Probe => "0003",
    }
}

/// Heap size, in bytes, that `role` reserves.
pub fn heap_bytes(role: FirmwareRole) -> (n: usize)
    ensures
        n == heap_bytes_of(role),
        role == FirmwareRole::Echo ==> n == 0,
        role == FirmwareRole::Receiver ==> n == 16384,
        role == FirmwareRole::Sender ==> n == 16384,
        role == FirmwareRole::V2Probe ==> n == 8192,
{
    proof {
        lemma_role_settings(role);
    }
    match role {
        FirmwareRole::Echo => 0,
        FirmwareRole::Receiver => 16 * 1024,
        FirmwareRole::Sender => 16 * 1024,
        FirmwareRole::V2Probe => 8 * 1024,
    }
}

/// Whether `role` waits for the host to open the port before it starts.
pub fn waits_for_port_open(role: FirmwareRole) -> (r: bool)
    ensures
        r == waits_for_port_open_of(role),
        r <==> (role == FirmwareRole::Sender || role == FirmwareRole::V2Probe),
{
    proof {
        lemma_role_settings(role);
    }
    match role {
        FirmwareRole::Sender => true,
        FirmwareRole::V2Probe => true,
        _ => false,
    }
}

/// The settings of each image: product ids `0x27dd` for the echo and the
/// receiver, `0x27de` for the sender and `0x27df` for the v2 probe; heaps
/// of 16 KiB for the receiver and the sender, 8 KiB for the v2 probe and
/// none for the echo; only the sender and the v2 probe wait for the host to
/// open the port.
pub proof fn lemma_role_settings(role: FirmwareRole)
    ensures
        (role == FirmwareRole::Echo || role == FirmwareRole::Receiver) ==> product_id_of(role)
            == 0x27ddu16,
        role == FirmwareRole::Sender ==> product_id_of(role) == 0x27deu16,
        role == FirmwareRole::V2Probe ==> product_id_of(role) == 0x27dfu16,
        role == FirmwareRole::Echo ==> heap_bytes_of(role) == 0,
        role == FirmwareRole::Receiver ==> heap_bytes_of(role) == 16384,
        role == FirmwareRole::Sender ==> heap_bytes_of(role) == 16384,
        role == FirmwareRole::V2Probe ==> heap_bytes_of(role) == 8192,
        waits_for_port_open_of(role) <==> (role == FirmwareRole::Sender || role
            == FirmwareRole::V2Probe),
{
}

/// The payjoin images can be told apart on the bus: the receiver, the sender
/// and the v2 probe have pairwise different product ids.
pub proof fn lemma_payjoin_roles_distinct(a: FirmwareRole, b: FirmwareRole)
    requires
        a != FirmwareRole::Echo,
        b != FirmwareRole::Echo,
        a != b,
    ensures
        product_id_of(a) != product_id_of(b),
{
}

/// The P2WPKH output script of a 20-byte public key hash: `OP_0`, a push of
/// 20 bytes, the hash.
pub open spec fn p2wpkh_script(key_hash: Seq<u8>) -> Seq<u8> {
    seq![0x00u8, 0x14u8] + key_hash
}

/// `bitcoin::ScriptBuf::new_p2wpkh` on the hash `key_hash`, as bytes. The
/// bitcoin source builds it as a version-0 witness program: the `OP_0`
/// opcode, then a push of the 20 bytes, which the contract states.
#[verifier::external_body]
fn new_p2wpkh_script(key_hash: [u8; 20]) -> (script: Vec<u8>)
    ensures
        script@ == p2wpkh_script(key_hash@),
{
    let hash = <WPubkeyHash as bitcoin::hashes::Hash>::from_byte_array(key_hash);
    ScriptBuf::new_p2wpkh(&hash).into_bytes()
}

/// The receiver's own output script: P2WPKH of twenty `0x22` bytes.
pub fn receiver_script() -> (script: Vec<u8>)
    ensures
        script@ == p2wpkh_script(Seq::new(20, |i: int| RECEIVER_KEY_HASH_BYTE)),
        script@.len() == 22,
        script@[0] == 0x00u8,
        script@[1] == 0x14u8,
        forall|i: int| 2 <= i < 22 ==> script@[i] == 0x22u8,
{
    let key_hash = [RECEIVER_KEY_HASH_BYTE; 20];
    assert(key_hash@ =~= Seq::new(20, |i: int| RECEIVER_KEY_HASH_BYTE));
    new_p2wpkh_script(key_hash)
}

/// Whether `script` is the receiver's script `own`, byte for byte.
pub fn is_own_script(own: &[u8], script: &[u8]) -> (r: bool)
    ensures
        r == (script@ == own@),
{
    if own.len() != script.len() {
        return false;
    }
    let mut i: usize = 0;
    while i < own.len()
        invariant
            own@.len() == script@.len(),
            i <= own@.len(),
            forall|j: int| 0 <= j < i ==> own@[j] == script@[j],
        decreases own@.len() - i,
    {
        if own[i] != script[i] {
            return false;
        }
        i = i + 1;
    }
    assert(own@ =~= script@);
    true
}

} // verus!
