use vstd::prelude::*;

verus! {

broadcast use vstd::layout::layout_of_primitives;

/// The header that starts each entry of a socket message's control data.
#[verifier::external_type_specification]
#[verifier::external_body]
pub struct ExControlHeader(libc::cmsghdr);

/// Bytes of one descriptor number on the wire (a C `int`).
pub const DESCRIPTOR_BYTES: usize = 4;

/// The byte sent as ordinary payload beside the control data, so that the
/// message is never empty.
pub const FILLER_BYTE: u8 = 36;

/// `len` rounded up to the next multiple of `word`.
pub open spec fn aligned(len: nat, word: nat) -> nat
    recommends
        word > 0,
{
    (len / word + if len % word == 0 {
        0nat
    } else {
        1nat
    }) * word
}

/// Rounds `len` up to the next multiple of `word`, or `None` where that does
/// not fit in a `usize`.
pub fn align_to(len: usize, word: usize) -> (r: Option<usize>)
    requires
        word > 0,
    ensures
        r is Some <==> aligned(len as nat, word as nat) <= usize::MAX,
        r matches Some(v) ==> v == aligned(len as nat, word as nat),
{
    let blocks: usize = if len % word == 0 {
        len / word
    } else {
        proof {
            let l: int = len as int;
            let w: int = word as int;
            vstd::arithmetic::div_mod::lemma_fundamental_div_mod(l, w);
            assert(l / w < usize::MAX) by (nonlinear_arith)
                requires
                    l == w * (l / w) + l % w,
                    0 < l % w < w,
                    l <= usize::MAX,
                    l >= 0,
            ;
        }
        len / word + 1
    };
    proof {
        vstd::arithmetic::div_mod::lemma_fundamental_div_mod(usize::MAX as int, word as int);
    }
    if blocks > usize::MAX / word {
        proof {
            let m: int = usize::MAX as int;
            let w: int = word as int;
            let b: int = blocks as int;
            assert(b * w > m) by (nonlinear_arith)
                requires
                    b >= m / w + 1,
                    m == w * (m / w) + m % w,
                    m % w < w,
                    w > 0,
            ;
        }
        return None;
    }
    proof {
        let m: int = usize::MAX as int;
        let w: int = word as int;
        let b: int = blocks as int;
        assert(b * w <= m) by (nonlinear_arith)
            requires
                b <= m / w,
                m == w * (m / w) + m % w,
                m % w >= 0,
                w > 0,
        ;
    }
    Some(blocks * word)
}

/// An aligned length is at least the length and less than a word above it.
proof fn lemma_aligned_bounds(len: nat, word: nat)
    requires
        word > 0,
    ensures
        len <= aligned(len, word) < len + word,
{
    let l: int = len as int;
    let w: int = word as int;
    vstd::arithmetic::div_mod::lemma_fundamental_div_mod(l, w);
    if l % w == 0 {
        assert((l / w) * w == l) by (nonlinear_arith)
            requires
                l == w * (l / w) + l % w,
                l % w == 0,
        ;
    } else {
        assert((l / w + 1) * w == l - l % w + w) by (nonlinear_arith)
            requires
                l == w * (l / w) + l % w,
        ;
    }
}

/// Where the control data of a message that carries one descriptor lies:
/// `header` is the aligned size of an entry header, `len` the length of the
/// one entry, `space` the size of the buffer that holds it.
#[derive(Debug, Clone, Copy, PartialEq, Eq, Structural)]
pub struct ControlLayout {
    pub header: usize,
    pub len: usize,
    pub space: usize,
}

/// The layout that the platform's header size and word size give, as the
/// `CMSG_LEN` and `CMSG_SPACE` rules compute it for one descriptor.
pub open spec fn one_descriptor_layout_spec(header_size: nat, word: nat) -> ControlLayout {
    let header = aligned(header_size, word);
    ControlLayout {
        header: header as usize,
        len: (header + DESCRIPTOR_BYTES) as usize,
        space: (header + aligned(DESCRIPTOR_BYTES as nat, word)) as usize,
    }
}

/// Whether that layout fits in `usize`.
pub open spec fn one_descriptor_layout_fits(header_size: nat, word: nat) -> bool {
    aligned(header_size, word) + aligned(DESCRIPTOR_BYTES as nat, word) <= usize::MAX
}

/// Computes the control-data layout for one descriptor on this platform.
/// It is `None` only where the sizes would not fit in a `usize`.
pub fn one_descriptor_layout() -> (r: Option<ControlLayout>)
    ensures
        r is Some <==> one_descriptor_layout_fits(
            vstd::layout::size_of::<libc::cmsghdr>(),
            vstd::layout::size_of::<usize>(),
        ),
        r matches Some(l) ==> l == one_descriptor_layout_spec(
            vstd::layout::size_of::<libc::cmsghdr>(),
            vstd::layout::size_of::<usize>(),
        ),
{
    let word = core::mem::size_of::<usize>();
    let header_size = core::mem::size_of::<libc::cmsghdr>();
    proof {
        lemma_aligned_bounds(DESCRIPTOR_BYTES as nat, word as nat);
    }
    let data = match align_to(DESCRIPTOR_BYTES, word) {
        Some(d) => d,
        None => {
            return None;
        },
    };
    let header = match align_to(header_size, word) {
        Some(h) => h,
        None => {
            proof {
                lemma_aligned_bounds(header_size as nat, word as nat);
            }
            return None;
        },
    };
    if header > usize::MAX - data {
        return None;
    }
    Some(ControlLayout { header, len: header + DESCRIPTOR_BYTES, space: header + data })
}

/// A descriptor-transfer failure.
#[derive(Debug, Clone, Copy, PartialEq, Eq, Structural)]
pub enum ChannelError {
    /// The send or receive call failed with this OS error code.
    Os(i32),
    /// A message arrived without a descriptor entry that covers one descriptor.
    MissingDescriptor,
}

/// The first entry of a message's control data: its declared length and the
/// descriptor number that its data starts with.
#[derive(Debug, Clone, Copy, PartialEq, Eq, Structural)]
pub struct RightsEntry {
    pub len: usize,
    pub fd: i32,
}

/// The entry that carries `fd` alone under `layout`.
pub fn rights_entry(layout: &ControlLayout, fd: i32) -> (r: RightsEntry)
    ensures
        r.len == layout.len,
        r.fd == fd,
{
    RightsEntry { len: layout.len, fd }
}

/// The outcome of sending a descriptor, from what the send call returned
/// (`ret`) and the error code it left (`errno`).
pub fn send_outcome(ret: isize, errno: i32) -> (r: Result<(), ChannelError>)
    ensures
        ret < 0 ==> r == Err::<(), ChannelError>(ChannelError::Os(errno)),
        ret >= 0 ==> r == Ok::<(), ChannelError>(()),
{
    if ret < 0 {
        Err(ChannelError::Os(errno))
    } else {
        Ok(())
    }
}

/// The descriptor that a received message yields: `ret` and `errno` are what
/// the receive call returned and left, `first` the first control entry, if
/// any. Only the first entry is read; it must cover one descriptor.
pub open spec fn receive_outcome_spec(
    layout: ControlLayout,
    ret: isize,
    errno: i32,
    first: Option<RightsEntry>,
) -> Result<i32, ChannelError> {
    if ret < 0 {
        Err(ChannelError::Os(errno))
    } else {
        match first {
            Some(e) => if e.len >= layout.len {
                Ok(e.fd)
            } else {
                Err(ChannelError::MissingDescriptor)
            },
            None => Err(ChannelError::MissingDescriptor),
        }
    }
}

/// Decides what a received message yields; see `receive_outcome_spec`.
pub fn receive_outcome(
    layout: &ControlLayout,
    ret: isize,
    errno: i32,
    first: Option<RightsEntry>,
) -> (r: Result<i32, ChannelError>)
    ensures
        r == receive_outcome_spec(*layout, ret, errno, first),
{
    if ret < 0 {
        return Err(ChannelError::Os(errno));
    }
    match first {
        Some(e) => if e.len >= layout.len {
            Ok(e.fd)
        } else {
            Err(ChannelError::MissingDescriptor)
        },
        None => Err(ChannelError::MissingDescriptor),
    }
}

/// The buffer of the platform's layout is sized for exactly one descriptor
/// entry: the entry fits, and what follows it is less than a word of
/// alignment padding.
pub proof fn lemma_buffer_holds_one_entry()
    requires
        one_descriptor_layout_fits(
            vstd::layout::size_of::<libc::cmsghdr>(),
            vstd::layout::size_of::<usize>(),
        ),
    ensures
        ({
            let l = one_descriptor_layout_spec(
                vstd::layout::size_of::<libc::cmsghdr>(),
                vstd::layout::size_of::<usize>(),
            );
            &&& l.len <= l.space
            &&& l.space - l.len < vstd::layout::size_of::<usize>()
            &&& l.len == l.header + DESCRIPTOR_BYTES
        }),
{
    let word = vstd::layout::size_of::<usize>();
    assert(word == 4 || word == 8);
    lemma_aligned_bounds(DESCRIPTOR_BYTES as nat, word);
    let h = aligned(vstd::layout::size_of::<libc::cmsghdr>(), word);
    let d = aligned(DESCRIPTOR_BYTES as nat, word);
    assert(4 <= d <= 8);
    assert(h + d <= usize::MAX);
    let l = one_descriptor_layout_spec(vstd::layout::size_of::<libc::cmsghdr>(), word);
    assert(l.header == h);
    assert(l.len == h + 4);
    assert(l.space == h + d);
}

/// A descriptor framed for sending comes out of a successful receive of that
/// frame unchanged, and as the only descriptor read.
pub proof fn lemma_frame_round_trip(layout: ControlLayout, fd: i32, ret: isize, errno: i32)
    requires
        ret >= 0,
    ensures
        receive_outcome_spec(layout, ret, errno, Some(RightsEntry { len: layout.len, fd })) == Ok::<
            i32,
            ChannelError,
        >(fd),
{
}

} // verus!
