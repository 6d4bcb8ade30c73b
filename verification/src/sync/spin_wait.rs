//! Spinning for a short while instead of blocking.
use crate::lock_word::doubled;
use vstd::arithmetic::power2::pow2;
use vstd::prelude::*;

verus! {

/// `std::hint::spin_loop` tells the processor that the thread spins. Nothing is
/// claimed of it.
pub assume_specification[ std::hint::spin_loop ]();

/// Gives `count` spin hints to the processor.
pub fn spin_loop_hints(count: usize)
{
    let mut i: usize = 0;
    while i < count
        invariant
            i <= count,
        decreases count - i,
    {
        std::hint::spin_loop();
        i = i + 1;
    }
}

/// How a thread spins.
#[derive(Clone, Copy, PartialEq, Eq, Debug, Structural)]
pub struct SpinConfig {
    /// Maximum amount of times a thread can spin.
    pub max_spin: usize,
    /// True if each iteration should exponentially back off.
    pub back_off: bool,
}

/// What is known of the processor and the system.
#[derive(Clone, Copy, PartialEq, Eq, Debug, Structural)]
pub enum SpinPlatform {
    /// A processor of which nothing is assumed.
    Other,
    /// An x86 processor, not under Windows.
    X86,
    /// An x86 processor under Windows.
    WindowsX86 {
        /// The processor is made by AMD.
        is_amd: bool,
    },
}

/// The letters in the four bytes of a word, the lowest first.
pub open spec fn letters(word: u32) -> Seq<u8> {
    seq![
        (word & 0xff) as u8,
        ((word >> 8) & 0xff) as u8,
        ((word >> 16) & 0xff) as u8,
        ((word >> 24) & 0xff) as u8,
    ]
}

/// The letters of "AuthenticAMD".
pub open spec fn amd_letters() -> Seq<u8> {
    seq![65, 117, 116, 104, 101, 110, 116, 105, 99, 65, 77, 68]
}

/// A word is told by its bytes.
proof fn bytes_tell(word: u32, a: u32, b: u32, c: u32, d: u32)
    by (bit_vector)
    requires
        a < 256,
        b < 256,
        c < 256,
        d < 256,
    ensures
        word == (a | (b << 8) | (c << 16) | (d << 24)) <==> word & 0xff == a && (word >> 8) & 0xff == b
            && (word >> 16) & 0xff == c && (word >> 24) & 0xff == d,
        word & 0xff <= 0xff,
        (word >> 8) & 0xff <= 0xff,
        (word >> 16) & 0xff <= 0xff,
        (word >> 24) & 0xff <= 0xff,
{
}

impl SpinPlatform {
    /// Tells whether a processor is made by AMD, by the three words in which it
    /// names its vendor.
    pub fn is_amd(ebx: u32, edx: u32, ecx: u32) -> (is_amd: bool)
        ensures
            is_amd <==> letters(ebx) + letters(edx) + letters(ecx) =~= amd_letters(),
    {
        proof {
            bytes_tell(ebx, 65, 117, 116, 104);
            bytes_tell(edx, 101, 110, 116, 105);
            bytes_tell(ecx, 99, 65, 77, 68);
            assert(0x6874_7541u32 == (65u32 | (117u32 << 8) | (116u32 << 16) | (104u32 << 24))) by (bit_vector);
            assert(0x6974_6e65u32 == (101u32 | (110u32 << 8) | (116u32 << 16) | (105u32 << 24))) by (bit_vector);
            assert(0x444d_4163u32 == (99u32 | (65u32 << 8) | (77u32 << 16) | (68u32 << 24))) by (bit_vector);
            let name = letters(ebx) + letters(edx) + letters(ecx);
            assert(name =~= amd_letters() <==> forall|i: int| 0 <= i < 12 ==> name[i] == amd_letters()[i]);
            assert(name[0] == letters(ebx)[0] && name[1] == letters(ebx)[1]);
        }
        ebx == 0x6874_7541 && edx == 0x6974_6e65 && ecx == 0x444d_4163
    }
}

/// A processor is made by AMD exactly if the words of its vendor, read as letters, are
/// "Auth", "enti" and "cAMD".
pub proof fn amd_is_known_by_its_name(ebx: u32, edx: u32, ecx: u32, is_amd: bool)
    requires
        call_ensures(SpinPlatform::is_amd, (ebx, edx, ecx), is_amd),
    ensures
        is_amd <==> ebx == 0x6874_7541 && edx == 0x6974_6e65 && ecx == 0x444d_4163,
{
    bytes_tell(ebx, 65, 117, 116, 104);
    bytes_tell(edx, 101, 110, 116, 105);
    bytes_tell(ecx, 99, 65, 77, 68);
    assert(0x6874_7541u32 == (65u32 | (117u32 << 8) | (116u32 << 16) | (104u32 << 24))) by (bit_vector);
    assert(0x6974_6e65u32 == (101u32 | (110u32 << 8) | (116u32 << 16) | (105u32 << 24))) by (bit_vector);
    assert(0x444d_4163u32 == (99u32 | (65u32 << 8) | (77u32 << 16) | (68u32 << 24))) by (bit_vector);
    let name = letters(ebx) + letters(edx) + letters(ecx);
    assert(name =~= amd_letters() <==> forall|i: int| 0 <= i < 12 ==> name[i] == amd_letters()[i]);
    assert(name[0] == letters(ebx)[0] && name[1] == letters(ebx)[1]);
    assert(is_amd ==> name[2] == 116 && name[3] == 104 && name[4] == 101 && name[5] == 110 && name[6] == 116
        && name[7] == 105 && name[8] == 99 && name[9] == 65 && name[10] == 77 && name[11] == 68);
}

impl SpinConfig {
    /// Chooses how to spin. Backing off works best on x86. Of the others it is
    /// best not to assume which strategy is effective. On AMD under Windows
    /// blocking performs better than spinning.
    pub fn new(platform: SpinPlatform) -> (config: Self)
        ensures
            config == (match platform {
                SpinPlatform::Other => SpinConfig { max_spin: 30, back_off: false },
                SpinPlatform::X86 => SpinConfig { max_spin: 6, back_off: true },
                SpinPlatform::WindowsX86 { is_amd } => if is_amd {
                    SpinConfig { max_spin: 0, back_off: false }
                } else {
                    SpinConfig { max_spin: 6, back_off: true }
                },
            }),
    {
        match platform {
            SpinPlatform::Other => SpinConfig { max_spin: 30, back_off: false },
            SpinPlatform::X86 => SpinConfig { max_spin: 6, back_off: true },
            SpinPlatform::WindowsX86 { is_amd } => {
                if is_amd {
                    SpinConfig { max_spin: 0, back_off: false }
                } else {
                    SpinConfig { max_spin: 6, back_off: true }
                }
            },
        }
    }

    /// The number of hints of a spin is a machine number.
    pub open spec fn is_bounded(self) -> bool {
        self.max_spin < 31
    }
}

/// Counts how often a thread has spun.
#[derive(Clone, Copy, PartialEq, Eq, Debug, Structural)]
pub struct SpinWait {
    pub spin: usize,
}

impl SpinWait {
    /// A thread that has not spun yet.
    pub fn new() -> (wait: Self)
        ensures
            wait.spin == 0,
    {
        SpinWait { spin: 0 }
    }

    /// Lets the thread spin again from the start.
    pub fn reset(&mut self)
        ensures
            final(self).spin == 0,
    {
        self.spin = 0;
    }

    /// The number of spin hints that the next spin gives.
    pub fn hints(&self, config: SpinConfig) -> (count: usize)
        requires
            config.is_bounded(),
            self.spin < config.max_spin,
        ensures
            count == (if config.back_off {
                pow2((self.spin + 1) as nat)
            } else {
                1
            }),
    {
        if config.back_off {
            doubled(self.spin + 1)
        } else {
            1
        }
    }

    /// Spins once, unless the thread has spun enough. Returns whether it spun.
    pub fn spin(&mut self, config: SpinConfig) -> (spun: bool)
        requires
            config.is_bounded(),
        ensures
            spun == (old(self).spin < config.max_spin),
            final(self).spin == old(self).spin + (if spun {
                1int
            } else {
                0
            }),
    {
        if self.spin < config.max_spin {
            let count = self.hints(config);
            self.spin = self.spin + 1;
            spin_loop_hints(count);
            true
        } else {
            false
        }
    }
}

} // verus!
