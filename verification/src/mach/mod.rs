//! Mach messaging as the window manager uses it: the header and its bits, how a payload is laid out
//! behind a header, and the order in which ports are made, used and given back. Nothing here talks
//! to the kernel; the callers perform the steps and hand back what came of them.
use vstd::prelude::*;

pub mod begin;
pub mod framing;
pub mod ports;
pub mod sending;

verus! {

pub const MAX_MESSAGE_SIZE: u32 = 262_144;

pub const KERN_SUCCESS: i32 = 0;

pub const MACH_MSG_SUCCESS: i32 = 0;

pub const MACH_SEND_MSG: u32 = 0x0000_0001;

pub const MACH_SEND_TIMEOUT: u32 = 0x0000_0010;

pub const MACH_RCV_MSG: u32 = 0x0000_0002;

pub const MACH_RCV_TIMEOUT: u32 = 0x0000_0100;

pub const MACH_MSG_TIMEOUT_NONE: u32 = 0;

pub const MACH_PORT_NULL: u32 = 0;

pub const MACH_SEND_SYNC_OVERRIDE: u32 = 0x0010_0000;

pub const MACH_SEND_PROPAGATE_QOS: u32 = 0x0020_0000;

pub const MACH_RCV_SYNC_WAIT: u32 = 0x0000_4000;

pub const MACH_MSGH_BITS_REMOTE_MASK: u32 = 0x0000_001f;

pub const MACH_MSG_TYPE_COPY_SEND: u32 = 19;

pub const MACH_MSG_TYPE_MOVE_SEND_ONCE: u32 = 18;

pub const MACH_MSG_TYPE_MAKE_SEND_ONCE: u32 = 21;

pub const MACH_MSGH_BITS_COMPLEX: u32 = 0x8000_0000;

pub const MACH_MSG_TYPE_MAKE_SEND: u32 = 20;

pub const MACH_PORT_RIGHT_RECEIVE: i32 = 1;

pub const MACH_PORT_RIGHT_SEND: i32 = 0;

pub const MACH_PORT_LIMITS_INFO: i32 = 1;

pub const MACH_PORT_LIMITS_INFO_COUNT: u32 = 1;

pub const MACH_PORT_QLIMIT_LARGE: u32 = 1024;

pub const TASK_BOOTSTRAP_PORT: i32 = 4;

pub const BOOTSTRAP_NOT_PRIVILEGED: i32 = 1100;

pub const BOOTSTRAP_NAME_IN_USE: i32 = 1101;

pub const BOOTSTRAP_UNKNOWN_SERVICE: i32 = 1102;

pub const MACH_MSG_OOL_DESCRIPTOR: u32 = 1;

pub const MACH_MSG_VIRTUAL_COPY: u8 = 1;

/// The bytes a header takes up in front of the payload.
pub const HEADER_SIZE: u32 = 24;

/// The bytes the descriptor count takes up in a complex message.
pub const BODY_SIZE: u64 = 4;

#[allow(non_camel_case_types)]
#[derive(Clone, Copy, Debug, PartialEq, Eq, Structural)]
pub struct mach_msg_header_t {
    pub msgh_bits: u32,
    pub msgh_size: u32,
    pub msgh_remote_port: u32,
    pub msgh_local_port: u32,
    pub msgh_voucher_port: u32,
    pub msgh_id: i32,
}

#[allow(non_camel_case_types)]
#[derive(Clone, Copy, Debug, PartialEq, Eq, Structural)]
pub struct ndr_record_t {
    pub mig_vers: u8,
    pub if_vers: u8,
    pub reserved1: u8,
    pub mig_encoding: u8,
    pub int_rep: u8,
    pub char_rep: u8,
    pub float_rep: u8,
    pub reserved2: u8,
}

#[allow(non_camel_case_types)]
pub struct aligned_message_t<T>(pub T);

#[allow(non_camel_case_types)]
#[derive(Clone, Copy, Debug, PartialEq, Eq, Structural)]
pub struct mach_port_limits {
    pub mpl_qlimit: u32,
}

#[allow(non_camel_case_types)]
#[derive(Clone, Copy, Debug, PartialEq, Eq, Structural)]
pub struct mach_msg_body_t {
    pub msgh_descriptor_count: u32,
}

/// Where a payload lies that is not in the message itself. The address is a number here; zero is
/// the null address.
#[allow(non_camel_case_types)]
#[derive(Clone, Copy, Debug, PartialEq, Eq, Structural)]
pub struct mach_msg_ool_descriptor_t {
    pub address: u64,
    pub size: u32,
    pub deallocate: u8,
    pub copy: u8,
    pub pad1: u32,
    pub type_: u32,
}

#[allow(non_camel_case_types)]
pub struct mach_inline_message_t<const N: usize> {
    pub header: mach_msg_header_t,
    pub data: [u8; N],
}

#[allow(non_camel_case_types)]
pub struct mach_receive_buffer_t<const N: usize> {
    pub message: mach_inline_message_t<N>,
    pub trailer: [u8; 512],
}

/// The header bits for a message: how the remote port's right travels in the low byte, the local
/// port's in the next.
#[allow(non_snake_case)]
pub fn MACH_MSGH_BITS(remote: u32, local: u32) -> (bits: u32)
    ensures
        bits == remote | (local << 8),
{
    remote | (local << 8)
}

/// The header bits with a voucher and further flags; only the five bits of a remote disposition
/// are taken from `remote`.
#[allow(non_snake_case)]
pub fn MACH_MSGH_BITS_SET(remote: u32, local: u32, voucher: u32, other: u32) -> (bits: u32)
    ensures
        bits == (((remote & 0x1f) | (local << 8)) | (voucher << 16)) | other,
{
    ((remote & MACH_MSGH_BITS_REMOTE_MASK) | (local << 8) | (voucher << 16)) | other
}

/// How the remote port's right travels.
#[allow(non_snake_case)]
pub fn MACH_MSGH_BITS_REMOTE(bits: u32) -> (remote: u32)
    ensures
        remote == bits & 0xff,
        remote == bits % 256,
{
    proof {
        assert(bits & 0xff == bits % 256) by (bit_vector);
    }
    bits & 0xff
}

/// How the local port's right travels.
#[allow(non_snake_case)]
pub fn MACH_MSGH_BITS_LOCAL(bits: u32) -> (local: u32)
    ensures
        local == (bits >> 8) & 0xff,
        local == bits / 256 % 256,
{
    proof {
        assert((bits >> 8) & 0xff == bits / 256 % 256) by (bit_vector);
    }
    (bits >> 8) & 0xff
}

/// Two dispositions that each fit a byte are read back from the bits as they were put in.
pub proof fn dispositions_are_read_back(remote: u32, local: u32)
    requires
        remote < 256,
        local < 256,
    ensures
        (remote | (local << 8)) & 0xff == remote,
        ((remote | (local << 8)) >> 8) & 0xff == local,
        (remote | (local << 8)) & 0x8000_0000 == 0,
{
    assert((remote | (local << 8)) & 0xff == remote && ((remote | (local << 8)) >> 8) & 0xff
        == local && (remote | (local << 8)) & 0x8000_0000 == 0) by (bit_vector)
        requires
            remote < 256,
            local < 256,
    ;
}

/// With no voucher and no other flag, the long form gives the bits of the short form, for every
/// remote disposition of five bits.
pub proof fn the_two_forms_of_the_bits_agree(remote: u32, local: u32)
    requires
        remote < 32,
    ensures
        (((remote & 0x1f) | (local << 8)) | (0u32 << 16)) | 0 == remote | (local << 8),
{
    assert((((remote & 0x1f) | (local << 8)) | (0u32 << 16)) | 0u32 == remote | (local << 8))
        by (bit_vector)
        requires
            remote < 32,
    ;
}

/// The bits of a header hold the remote disposition in the lowest byte, the local one in the next, the
/// voucher's in the third, and flags above; each is read back from its own place.
pub proof fn the_bits_hold_each_in_its_place(
    remote: u32,
    local: u32,
    voucher: u32,
    short: u32,
    long: u32,
    remote_read: u32,
    local_read: u32,
)
    requires
        remote < 32,
        local < 256,
        voucher < 256,
        call_ensures(MACH_MSGH_BITS, (remote, local), short),
        call_ensures(MACH_MSGH_BITS_SET, (remote, local, voucher, 0x8000_0000u32), long),
        call_ensures(MACH_MSGH_BITS_REMOTE, (long,), remote_read),
        call_ensures(MACH_MSGH_BITS_LOCAL, (long,), local_read),
    ensures
        short == remote + 256 * local,
        long == remote + 256 * local + 65_536 * voucher + 0x8000_0000,
        remote_read == remote,
        local_read == local,
{
    assert(remote | (local << 8) == remote + 256 * local) by (bit_vector)
        requires
            remote < 32,
            local < 256,
    ;
    assert((((remote & 0x1f) | (local << 8)) | (voucher << 16)) | 0x8000_0000u32 == remote + 256
        * local + 65_536 * voucher + 0x8000_0000u32) by (bit_vector)
        requires
            remote < 32,
            local < 256,
            voucher < 256,
    ;
}

/// The kernel's own numbers: success is zero, each flag is a bit of its own, and the rights and the
/// failures of registering are told apart.
pub proof fn the_kernels_numbers()
    ensures
        KERN_SUCCESS == 0 && MACH_MSG_SUCCESS == 0 && MACH_PORT_NULL == 0
            && MACH_MSG_TIMEOUT_NONE == 0,
        MACH_SEND_MSG == 1 && MACH_RCV_MSG == 2 * MACH_SEND_MSG && MACH_SEND_TIMEOUT == 16,
        MACH_RCV_TIMEOUT == 16 * MACH_SEND_TIMEOUT && MACH_RCV_SYNC_WAIT == 64 * MACH_RCV_TIMEOUT,
        MACH_SEND_SYNC_OVERRIDE == 0x10_0000 && MACH_SEND_PROPAGATE_QOS == 2
            * MACH_SEND_SYNC_OVERRIDE,
        MACH_MSG_TYPE_MOVE_SEND_ONCE == 18 && MACH_MSG_TYPE_COPY_SEND == 19
            && MACH_MSG_TYPE_MAKE_SEND == 20 && MACH_MSG_TYPE_MAKE_SEND_ONCE == 21,
        MACH_MSGH_BITS_COMPLEX == 0x8000_0000 && MACH_MSGH_BITS_REMOTE_MASK == 31,
        MACH_PORT_RIGHT_SEND == 0 && MACH_PORT_RIGHT_RECEIVE == 1,
        MACH_PORT_LIMITS_INFO == 1 && MACH_PORT_LIMITS_INFO_COUNT == 1 && MACH_PORT_QLIMIT_LARGE
            == 1024,
        TASK_BOOTSTRAP_PORT == 4,
        BOOTSTRAP_NOT_PRIVILEGED == 1100 && BOOTSTRAP_NAME_IN_USE == 1101
            && BOOTSTRAP_UNKNOWN_SERVICE == 1102,
        MACH_MSG_OOL_DESCRIPTOR == 1 && MACH_MSG_VIRTUAL_COPY == 1,
        MAX_MESSAGE_SIZE == 256 * 1024,
        HEADER_SIZE == 6 * 4 && BODY_SIZE == 4,
{
}

} // verus!
