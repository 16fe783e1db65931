//! The bandwidth probe: which device it measures, what it runs there, and what the
//! measurements amount to.

use crate::text::{chars_of, contains, decimal, decimal_string, join, law_occurs, occurs};
use vstd::prelude::*;

verus! {

/// The room that all buffers of a kernel share: 1 GiB.
pub const WORKING_SET_BYTES: u64 = 1_073_741_824;

/// The number of invocations in a workgroup.
pub const WG_SIZE: u32 = 256;

/// The number of measurements of a kernel.
pub const TRIALS: usize = 5;

/// How often a dispatch goes over its buffers, so that its overhead counts little.
pub const LOOPS_PER_DISPATCH: u32 = 4;

/// The largest number of workgroups in a dispatch.
pub const MAX_GROUPS: u32 = 65535;

/// What a machine can lack for the probe to run.
#[derive(Debug, Clone, Copy, PartialEq, Eq, Structural)]
pub enum ProbeError {
    NoDevice,
    NoComputeQueue,
    NoDeviceMemory,
}

impl ProbeError {
    /// The error in words.
    pub open spec fn text(self) -> Seq<char> {
        match self {
            ProbeError::NoDevice => "no AMD/Radeon device found"@,
            ProbeError::NoComputeQueue => "no compute queue family"@,
            ProbeError::NoDeviceMemory => "no DEVICE_LOCAL memory type"@,
        }
    }

    /// Words the error.
    pub fn message(&self) -> (r: String)
        ensures
            r@ == self.text(),
    {
        match self {
            ProbeError::NoDevice => "no AMD/Radeon device found".to_string(),
            ProbeError::NoComputeQueue => "no compute queue family".to_string(),
            ProbeError::NoDeviceMemory => "no DEVICE_LOCAL memory type".to_string(),
        }
    }
}

/// A text in lower case, in the sense of Unicode.
pub uninterp spec fn lower_text(s: Seq<char>) -> Seq<char>;

/// An ASCII character in lower case.
pub open spec fn ascii_lower(c: char) -> char {
    if 'A' <= c <= 'Z' {
        (c as u32 + 32) as char
    } else {
        c
    }
}

/// A text in ASCII in lower case.
pub open spec fn ascii_lowered(s: Seq<char>) -> Seq<char> {
    s.map_values(|c: char| ascii_lower(c))
}

/// Calls `str::to_lowercase`. A text in ASCII is lowered character by character;
/// what becomes of other characters is left unsaid.
#[verifier::external_body]
fn lowercase(s: &str) -> (r: String)
    ensures
        r@ == lower_text(s@),
        vstd::utf8::is_ascii_chars(s@) ==> r@ == ascii_lowered(s@),
{
    s.to_lowercase()
}

/// Whether a device name in lower case is that of an AMD device.
pub open spec fn names_amd(lowered: Seq<char>) -> bool {
    occurs(lowered, "amd"@) || occurs(lowered, "radeon"@)
}

/// Tests whether a device name in lower case is that of an AMD device.
pub fn is_amd(lowered: &str) -> (r: bool)
    ensures
        r == names_amd(lowered@),
{
    let chars: Vec<char> = chars_of(lowered);
    contains(&chars, "amd") || contains(&chars, "radeon")
}

/// How many of `n` candidates were looked at to find the first that fits.
pub open spec fn looked_at(r: Result<usize, ProbeError>, n: nat) -> nat {
    match r {
        Ok(i) => (i + 1) as nat,
        Err(_) => n,
    }
}

/// Picks the first AMD device, by the names of all devices. Case does not matter.
pub fn pick_device(names: &Vec<String>) -> (r: Result<usize, ProbeError>)
    ensures
        match r {
            Ok(i) => i < names.len() && names_amd(lower_text(names@[i as int]@)) && forall|j: int|
                0 <= j < i ==> !names_amd(lower_text(#[trigger] names@[j]@)),
            Err(e) => e == ProbeError::NoDevice && forall|j: int|
                0 <= j < names.len() ==> !names_amd(lower_text(#[trigger] names@[j]@)),
        },
        forall|j: int|
            0 <= j < looked_at(r, names@.len()) && vstd::utf8::is_ascii_chars(names@[j]@)
                ==> lower_text(#[trigger] names@[j]@) == ascii_lowered(names@[j]@),
{
    let mut i: usize = 0;
    while i < names.len()
        invariant
            i <= names.len(),
            forall|j: int| 0 <= j < i ==> !names_amd(lower_text(#[trigger] names@[j]@)),
            forall|j: int|
                0 <= j < i && vstd::utf8::is_ascii_chars(names@[j]@) ==> lower_text(
                    #[trigger] names@[j]@,
                ) == ascii_lowered(names@[j]@),
        decreases names.len() - i,
    {
        if is_amd(lowercase(names[i].as_str()).as_str()) {
            return Ok(i);
        }
        i += 1;
    }
    Err(ProbeError::NoDevice)
}

/// Whether the flags of a queue family hold the bit for compute.
pub open spec fn computes(flags: u32) -> bool {
    flags & 2 == 2
}

/// Calls `ash::vk::QueueFlags::contains` with `QueueFlags::COMPUTE`, which is the
/// second lowest bit.
#[verifier::external_body]
fn queue_computes(flags: u32) -> (r: bool)
    ensures
        r == computes(flags),
{
    ash::vk::QueueFlags::from_raw(flags).contains(ash::vk::QueueFlags::COMPUTE)
}

/// Whether the flags of a memory type hold the bit for memory local to the device.
pub open spec fn is_device_local(flags: u32) -> bool {
    flags & 1 == 1
}

/// Calls `ash::vk::MemoryPropertyFlags::contains` with
/// `MemoryPropertyFlags::DEVICE_LOCAL`, which is the lowest bit.
#[verifier::external_body]
fn memory_is_local(flags: u32) -> (r: bool)
    ensures
        r == is_device_local(flags),
{
    let held = ash::vk::MemoryPropertyFlags::from_raw(flags);
    held.contains(ash::vk::MemoryPropertyFlags::DEVICE_LOCAL)
}

/// Picks the first queue family that can compute, by the flags of all families.
pub fn pick_queue_family(flags: &Vec<u32>) -> (r: Result<u32, ProbeError>)
    requires
        flags.len() <= u32::MAX,
    ensures
        match r {
            Ok(i) => i < flags.len() && computes(flags@[i as int]) && forall|j: int|
                0 <= j < i ==> !computes(#[trigger] flags@[j]),
            Err(e) => e == ProbeError::NoComputeQueue && forall|j: int|
                0 <= j < flags.len() ==> !computes(#[trigger] flags@[j]),
        },
{
    let mut i: usize = 0;
    while i < flags.len()
        invariant
            i <= flags.len() <= u32::MAX,
            forall|j: int| 0 <= j < i ==> !computes(#[trigger] flags@[j]),
        decreases flags.len() - i,
    {
        if queue_computes(flags[i]) {
            return Ok(i as u32);
        }
        i += 1;
    }
    Err(ProbeError::NoComputeQueue)
}

/// Picks the first memory type that is local to the device, by the flags of all
/// types.
pub fn pick_memory_type(flags: &Vec<u32>) -> (r: Result<u32, ProbeError>)
    requires
        flags.len() <= u32::MAX,
    ensures
        match r {
            Ok(i) => i < flags.len() && is_device_local(flags@[i as int]) && forall|j: int|
                0 <= j < i ==> !is_device_local(#[trigger] flags@[j]),
            Err(e) => e == ProbeError::NoDeviceMemory && forall|j: int|
                0 <= j < flags.len() ==> !is_device_local(#[trigger] flags@[j]),
        },
{
    let mut i: usize = 0;
    while i < flags.len()
        invariant
            i <= flags.len() <= u32::MAX,
            forall|j: int| 0 <= j < i ==> !is_device_local(#[trigger] flags@[j]),
        decreases flags.len() - i,
    {
        if memory_is_local(flags[i]) {
            return Ok(i as u32);
        }
        i += 1;
    }
    Err(ProbeError::NoDeviceMemory)
}

/// A kernel that the probe measures.
#[derive(Debug, Clone, Copy, PartialEq, Eq, Structural)]
pub enum Kernel {
    /// `dst = src`.
    Copy,
    /// `a = b + scalar * c`.
    Triad,
}

impl Kernel {
    /// The kernel's name.
    pub open spec fn name(self) -> Seq<char> {
        match self {
            Kernel::Copy => "COPY"@,
            Kernel::Triad => "TRIAD"@,
        }
    }

    /// The number of buffers that the kernel reads and writes.
    pub open spec fn buffer_count(self) -> nat {
        match self {
            Kernel::Copy => 2,
            Kernel::Triad => 3,
        }
    }

    /// The size of each buffer in bytes: its share of the working set.
    pub open spec fn buffer_size(self) -> nat {
        WORKING_SET_BYTES as nat / self.buffer_count()
    }

    /// The constants that are handed to the kernel: the number of 16-byte elements
    /// of a buffer, the number of loops, and the triad's scalar.
    pub open spec fn constants(self) -> Seq<u32> {
        let elements = (self.buffer_size() / 16) as u32;
        match self {
            Kernel::Copy => seq![elements, LOOPS_PER_DISPATCH],
            Kernel::Triad => seq![elements, LOOPS_PER_DISPATCH, 3u32],
        }
    }

    /// Returns the kernel's name.
    pub fn label(&self) -> (r: &'static str)
        ensures
            r@ == self.name(),
    {
        match self {
            Kernel::Copy => "COPY",
            Kernel::Triad => "TRIAD",
        }
    }

    /// Returns the number of buffers.
    pub fn buffers(&self) -> (r: usize)
        ensures
            r == self.buffer_count(),
    {
        match self {
            Kernel::Copy => 2,
            Kernel::Triad => 3,
        }
    }

    /// Returns the size of each buffer. Together the buffers take no more than the
    /// working set.
    pub fn buffer_bytes(&self) -> (r: u64)
        ensures
            r == self.buffer_size(),
            r * self.buffer_count() <= WORKING_SET_BYTES,
    {
        proof {
            law_buffers_share_working_set(*self);
        }
        WORKING_SET_BYTES / (self.buffers() as u64)
    }

    /// Returns the number of 16-byte elements of a buffer.
    pub fn elements(&self) -> (r: u32)
        ensures
            r == self.buffer_size() / 16,
    {
        (self.buffer_bytes() / 16) as u32
    }

    /// Returns the constants that are handed to the kernel.
    pub fn push_constants(&self) -> (r: Vec<u32>)
        ensures
            r@ == self.constants(),
    {
        let mut r: Vec<u32> = Vec::new();
        r.push(self.elements());
        r.push(LOOPS_PER_DISPATCH);
        if let Kernel::Triad = self {
            r.push(3);
        }
        assert(r@ =~= self.constants());
        r
    }

    /// The bytes that a kernel reads and writes in one pass over its buffers.
    pub fn bytes_per_pass(&self) -> (r: u64)
        ensures
            r == self.buffer_size() * self.buffer_count(),
            r <= WORKING_SET_BYTES,
    {
        self.buffer_bytes() * (self.buffers() as u64)
    }

    /// The bytes that a kernel reads and writes in one dispatch.
    pub fn bytes_per_dispatch(&self) -> (r: u64)
        ensures
            r == self.buffer_size() * self.buffer_count() * LOOPS_PER_DISPATCH,
    {
        self.bytes_per_pass() * (LOOPS_PER_DISPATCH as u64)
    }
}

/// The buffers of a kernel share the working set evenly: together they take no more
/// than it, and what they leave would not make each of them a byte larger.
pub proof fn law_buffers_share_working_set(k: Kernel)
    ensures
        k.buffer_size() * k.buffer_count() <= WORKING_SET_BYTES,
        WORKING_SET_BYTES < (k.buffer_size() + 1) * k.buffer_count(),
{
    match k {
        Kernel::Copy => {
            assert(k.buffer_count() == 2);
            assert(k.buffer_size() == 536_870_912);
        },
        Kernel::Triad => {
            assert(k.buffer_count() == 3);
            assert(k.buffer_size() == 357_913_941);
        },
    }
}

/// The number of workgroups that cover `n` elements, as far as a dispatch can hold
/// them.
pub open spec fn groups_for(n: u32) -> int {
    let needed = (n + WG_SIZE - 1) / WG_SIZE as int;
    if needed < MAX_GROUPS {
        needed
    } else {
        MAX_GROUPS as int
    }
}

/// Reckons the number of workgroups for `n` elements.
pub fn workgroups(n: u32) -> (r: u32)
    requires
        n + WG_SIZE - 1 <= u32::MAX,
    ensures
        r == groups_for(n),
{
    let needed: u32 = (n + (WG_SIZE - 1)) / WG_SIZE;
    if needed < MAX_GROUPS {
        needed
    } else {
        MAX_GROUPS
    }
}

/// A dispatch covers all elements, with no workgroup to spare, unless it is as large
/// as a dispatch can be.
pub proof fn law_dispatch_covers(n: u32)
    ensures
        0 <= groups_for(n) <= MAX_GROUPS,
        groups_for(n) < MAX_GROUPS ==> n <= groups_for(n) * WG_SIZE < n + WG_SIZE,
{
}

/// The number that four bytes write, the lowest first.
pub open spec fn word(b0: u8, b1: u8, b2: u8, b3: u8) -> u32 {
    (b0 + 256 * b1 + 65536 * b2 + 16777216 * b3) as u32
}

/// The byte of `w` at position `k`, the lowest first.
pub open spec fn byte_at(w: u32, k: int) -> u8 {
    if k == 0 {
        (w % 256) as u8
    } else if k == 1 {
        (w / 256 % 256) as u8
    } else if k == 2 {
        (w / 65536 % 256) as u8
    } else {
        (w / 16777216 % 256) as u8
    }
}

/// The words that a sequence of bytes writes, lowest byte first.
pub open spec fn words_of(bytes: Seq<u8>) -> Seq<u32> {
    Seq::new(
        bytes.len() / 4,
        |i: int| word(bytes[4 * i], bytes[4 * i + 1], bytes[4 * i + 2], bytes[4 * i + 3]),
    )
}

/// The bytes that write a sequence of words, lowest byte first.
pub open spec fn bytes_of(words: Seq<u32>) -> Seq<u8> {
    Seq::new(4 * words.len(), |i: int| byte_at(words[i / 4], i % 4))
}

/// Reads a shader's code: words, lowest byte first.
pub fn spirv_words(bytes: &[u8]) -> (r: Vec<u32>)
    requires
        bytes.len() % 4 == 0,
    ensures
        r@ == words_of(bytes@),
{
    let mut r: Vec<u32> = Vec::new();
    let mut i: usize = 0;
    while i < bytes.len()
        invariant
            i <= bytes.len(),
            i % 4 == 0,
            bytes.len() % 4 == 0,
            r@ == words_of(bytes@).take(i as int / 4),
        decreases bytes.len() - i,
    {
        let b0: u32 = bytes[i] as u32;
        let b1: u32 = bytes[i + 1] as u32;
        let b2: u32 = bytes[i + 2] as u32;
        let b3: u32 = bytes[i + 3] as u32;
        let w: u32 = b0 + 256 * b1 + 65536 * b2 + 16777216 * b3;
        r.push(w);
        let ghost k = i as int / 4;
        assert(words_of(bytes@)[k] == w);
        assert(words_of(bytes@).take(k + 1) =~= words_of(bytes@).take(k).push(w));
        i += 4;
    }
    assert(words_of(bytes@).take(bytes@.len() as int / 4) =~= words_of(bytes@));
    r
}

/// Writes push constants as bytes, lowest byte first.
pub fn push_bytes(words: &Vec<u32>) -> (r: Vec<u8>)
    ensures
        r@ == bytes_of(words@),
{
    let mut r: Vec<u8> = Vec::new();
    let mut i: usize = 0;
    while i < words.len()
        invariant
            i <= words.len(),
            r@ == bytes_of(words@.take(i as int)),
        decreases words.len() - i,
    {
        let w: u32 = words[i];
        r.push((w % 256) as u8);
        r.push((w / 256 % 256) as u8);
        r.push((w / 65536 % 256) as u8);
        r.push((w / 16777216 % 256) as u8);
        assert(r@ =~= bytes_of(words@.take(i as int + 1)));
        i += 1;
    }
    assert(words@.take(words@.len() as int) =~= words@);
    r
}

/// The bytes of a word are those that it was read from.
proof fn lemma_bytes_of_word(b0: u8, b1: u8, b2: u8, b3: u8)
    ensures
        byte_at(word(b0, b1, b2, b3), 0) == b0,
        byte_at(word(b0, b1, b2, b3), 1) == b1,
        byte_at(word(b0, b1, b2, b3), 2) == b2,
        byte_at(word(b0, b1, b2, b3), 3) == b3,
{
    let w = word(b0, b1, b2, b3);
    let top = b2 + 256 * b3;
    let high = b1 + 256 * top;
    assert(w == b0 + 256 * high);
    assert(w % 256 == b0 && w / 256 == high);
    assert(high % 256 == b1 && high / 256 == top);
    assert(top % 256 == b2 && top / 256 == b3);
    assert(w / 65536 == top) by {
        assert(w == 65536 * top + (b0 + 256 * b1));
    }
    assert(w / 16777216 == b3) by {
        assert(w == 16777216 * b3 + (b0 + 256 * b1 + 65536 * b2));
    }
}

/// A word is read back from its bytes.
proof fn lemma_word_of_bytes(w: u32)
    ensures
        word(byte_at(w, 0), byte_at(w, 1), byte_at(w, 2), byte_at(w, 3)) == w,
{
}

/// Where the bytes of the word at `i` stand.
proof fn lemma_bytes_at(words: Seq<u32>, i: int, k: int)
    requires
        0 <= i < words.len(),
        0 <= k < 4,
    ensures
        bytes_of(words)[4 * i + k] == byte_at(words[i], k),
{
    assert((4 * i + k) / 4 == i && (4 * i + k) % 4 == k);
}

/// Words that are written as bytes and read back are the same words.
pub proof fn law_words_survive(words: Seq<u32>)
    ensures
        words_of(bytes_of(words)) == words,
{
    let b = bytes_of(words);
    assert forall|i: int| 0 <= i < words.len() implies #[trigger] words_of(b)[i] == words[i] by {
        lemma_bytes_at(words, i, 0);
        lemma_bytes_at(words, i, 1);
        lemma_bytes_at(words, i, 2);
        lemma_bytes_at(words, i, 3);
        lemma_word_of_bytes(words[i]);
    }
    assert(words_of(b) =~= words);
}

/// Bytes that make whole words, read as words and written again, are the same bytes.
pub proof fn law_bytes_survive(bytes: Seq<u8>)
    requires
        bytes.len() % 4 == 0,
    ensures
        bytes_of(words_of(bytes)) == bytes,
{
    let w = words_of(bytes);
    assert forall|i: int| 0 <= i < bytes.len() implies #[trigger] bytes_of(w)[i] == bytes[i] by {
        let k = i / 4;
        assert(w[k] == word(bytes[4 * k], bytes[4 * k + 1], bytes[4 * k + 2], bytes[4 * k + 3]));
        lemma_bytes_of_word(bytes[4 * k], bytes[4 * k + 1], bytes[4 * k + 2], bytes[4 * k + 3]);
        assert(i % 4 == i - 4 * k);
        assert(bytes_of(w)[i] == byte_at(w[k], i % 4));
    }
    assert(bytes_of(w) =~= bytes);
}

/// The ticks between two timestamps; none where the second lies before the first.
pub fn elapsed(start: u64, end: u64) -> (r: u64)
    ensures
        r == if end >= start {
            end - start
        } else {
            0
        },
{
    end.saturating_sub(start)
}

/// Picks the shortest of the trials: the one with the best bandwidth, as all trials
/// move the same number of bytes.
pub fn fastest(ticks: &Vec<u64>) -> (r: Option<u64>)
    ensures
        r is None <==> ticks.len() == 0,
        r matches Some(t) ==> ticks@.contains(t) && forall|i: int|
            0 <= i < ticks.len() ==> t <= #[trigger] ticks@[i],
{
    if ticks.len() == 0 {
        return None;
    }
    let mut best: u64 = ticks[0];
    let mut i: usize = 1;
    while i < ticks.len()
        invariant
            1 <= i <= ticks.len(),
            ticks@.contains(best),
            forall|j: int| 0 <= j < i ==> best <= #[trigger] ticks@[j],
        decreases ticks.len() - i,
    {
        if ticks[i] < best {
            best = ticks[i];
        }
        i += 1;
    }
    Some(best)
}

/// What is announced of a kernel before it runs: its name, its working set, and how
/// much a dispatch moves, both in mebibytes.
pub open spec fn announcement(k: Kernel) -> Seq<Seq<char>> {
    let n = k.buffer_count();
    let total = n * k.buffer_size();
    seq![
        "\n=== "@ + k.name() + " ==="@,
        "buffers: "@ + decimal(n) + " × "@ + decimal(k.buffer_size() / 1_048_576) + " MB = "@
            + decimal(total / 1_048_576) + " MB working set"@,
        "bytes per dispatch (incl. "@ + decimal(LOOPS_PER_DISPATCH as nat) + " loops): "@
            + decimal(total * LOOPS_PER_DISPATCH as nat / 1_048_576) + " MB"@,
    ]
}

/// Announces a kernel.
pub fn announce(k: &Kernel) -> (r: Vec<String>)
    ensures
        crate::text::texts(r@) == announcement(*k),
{
    let n: u64 = k.buffers() as u64;
    let heading: String = join(join("\n=== ", k.label()).as_str(), " ===");
    let count: String = join("buffers: ", decimal_string(n).as_str());
    let each: String = decimal_string(k.buffer_bytes() / 1_048_576);
    let size: String = join(join(" × ", each.as_str()).as_str(), " MB = ");
    let sum: String = decimal_string(k.bytes_per_pass() / 1_048_576);
    let total: String = join(sum.as_str(), " MB working set");
    let set: String = join(join(count.as_str(), size.as_str()).as_str(), total.as_str());
    let passes: String = decimal_string(LOOPS_PER_DISPATCH as u64);
    let loops: String = join("bytes per dispatch (incl. ", passes.as_str());
    let moved: String = join(decimal_string(k.bytes_per_dispatch() / 1_048_576).as_str(), " MB");
    let traffic: String = join(join(loops.as_str(), " loops): ").as_str(), moved.as_str());
    let mut r: Vec<String> = Vec::new();
    r.push(heading);
    r.push(set);
    r.push(traffic);
    let ghost want = announcement(*k);
    assert(heading@ =~= want[0]);
    assert(set@ =~= want[1]);
    assert(traffic@ =~= want[2]);
    assert(crate::text::texts(r@) =~= want);
    r
}

/// What is announced of a dispatch of `groups` workgroups.
pub open spec fn dispatch_text(groups: u32) -> Seq<char> {
    "dispatch: "@ + decimal(groups as nat) + " workgroups × "@ + decimal(WG_SIZE as nat)
        + " threads = "@ + decimal((groups * WG_SIZE) as nat) + " invocations"@
}

/// Announces a dispatch.
pub fn announce_dispatch(groups: u32) -> (r: String)
    requires
        groups <= MAX_GROUPS,
    ensures
        r@ == dispatch_text(groups),
{
    let count: String = decimal_string(groups as u64);
    let head: String = join(join("dispatch: ", count.as_str()).as_str(), " workgroups × ");
    let mid: String = join(decimal_string(WG_SIZE as u64).as_str(), " threads = ");
    let tail: String = join(decimal_string((groups * WG_SIZE) as u64).as_str(), " invocations");
    let r: String = join(join(head.as_str(), mid.as_str()).as_str(), tail.as_str());
    assert(r@ =~= dispatch_text(groups));
    r
}

/// Any name with "amd" or "radeon" in it, whatever stands before and behind it, is that
/// of an AMD device, and no other name is.
pub proof fn law_amd_names(a: Seq<char>, b: Seq<char>, s: Seq<char>)
    ensures
        names_amd(a + "amd"@ + b),
        names_amd(a + "radeon"@ + b),
        names_amd(s) <==> exists|i: int|
            #![trigger s.take(i)]
            0 <= i && ((i + 3 <= s.len() && s == s.take(i) + "amd"@ + s.skip(i + 3)) || (i + 6
                <= s.len() && s == s.take(i) + "radeon"@ + s.skip(i + 6))),
{
    law_occurs(a, "amd"@, b, s);
    law_occurs(a, "radeon"@, b, s);
    reveal_strlit("amd");
    reveal_strlit("radeon");
    if exists|i: int|
        #![trigger s.take(i)]
        0 <= i && ((i + 3 <= s.len() && s == s.take(i) + "amd"@ + s.skip(i + 3)) || (i + 6
            <= s.len() && s == s.take(i) + "radeon"@ + s.skip(i + 6))) {
        let i = choose|i: int|
            #![trigger s.take(i)]
            0 <= i && ((i + 3 <= s.len() && s == s.take(i) + "amd"@ + s.skip(i + 3)) || (i + 6
                <= s.len() && s == s.take(i) + "radeon"@ + s.skip(i + 6)));
        law_occurs(s.take(i), "amd"@, s.skip(i + 3), s);
        law_occurs(s.take(i), "radeon"@, s.skip(i + 6), s);
    }
}

/// Lowering turns each of the 26 capitals into its small letter, and leaves all other
/// characters and their places alone.
pub proof fn law_lowering(s: Seq<char>)
    ensures
        ascii_lowered(s).len() == s.len(),
        forall|i: int|
            0 <= i < s.len() ==> (65 <= s[i] as int <= 90 ==> (#[trigger] ascii_lowered(s)[i])
                as int == s[i] as int + 32),
        forall|i: int|
            0 <= i < s.len() && !(65 <= s[i] as int <= 90) ==> #[trigger] ascii_lowered(s)[i]
                == s[i],
{
}

/// The case of the letters in a device's name does not matter.
pub proof fn law_amd_in_any_case(a: Seq<char>, word: Seq<char>, b: Seq<char>)
    requires
        ascii_lowered(word) == "amd"@ || ascii_lowered(word) == "radeon"@,
    ensures
        names_amd(ascii_lowered(a + word + b)),
{
    let s = ascii_lowered(a + word + b);
    let w = ascii_lowered(word);
    assert(s =~= ascii_lowered(a) + w + ascii_lowered(b));
    law_amd_names(ascii_lowered(a), ascii_lowered(b), s);
}

/// Up to the first that fits, and otherwise all candidates, were looked at.
pub proof fn law_looked_at(i: usize, e: ProbeError, n: nat)
    ensures
        looked_at(Ok(i), n) == i + 1,
        looked_at(Err(e), n) == n,
{
}

/// The flags of a queue family tell of compute by their second lowest bit, those of a
/// memory type of the device's own memory by their lowest.
pub proof fn law_flag_bits(flags: u32)
    ensures
        computes(flags) <==> flags / 2 % 2 == 1,
        is_device_local(flags) <==> flags % 2 == 1,
{
    assert((flags & 2 == 2) == (flags / 2 % 2 == 1)) by (bit_vector);
    assert((flags & 1 == 1) == (flags % 2 == 1)) by (bit_vector);
}

/// Where all elements fit into a dispatch, there are just enough workgroups of 256 for
/// them; otherwise there are as many as a dispatch can hold.
pub proof fn law_dispatch_is_exact(n: u32)
    ensures
        n <= 16_776_960 ==> n <= groups_for(n) * 256 < n + 256,
        n > 16_776_960 ==> groups_for(n) == 65_535,
{
}

/// A word counts its bytes by powers of 256, the first byte lowest.
pub proof fn law_words_by_bytes(bytes: Seq<u8>, i: int)
    requires
        0 <= i,
        4 * i + 3 < bytes.len(),
    ensures
        words_of(bytes).len() == bytes.len() / 4,
        words_of(bytes)[i] == bytes[4 * i] + 0x100 * bytes[4 * i + 1] + 0x1_0000 * bytes[4 * i
            + 2] + 0x100_0000 * bytes[4 * i + 3],
{
}

/// The bytes of a word stand one behind the other, the lowest first.
pub proof fn law_bytes_by_words(words: Seq<u32>, i: int)
    requires
        0 <= i < words.len(),
    ensures
        bytes_of(words).len() == 4 * words.len(),
        words[i] == bytes_of(words)[4 * i] + 0x100 * bytes_of(words)[4 * i + 1] + 0x1_0000
            * bytes_of(words)[4 * i + 2] + 0x100_0000 * bytes_of(words)[4 * i + 3],
{
    lemma_bytes_at(words, i, 0);
    lemma_bytes_at(words, i, 1);
    lemma_bytes_at(words, i, 2);
    lemma_bytes_at(words, i, 3);
    lemma_word_of_bytes(words[i]);
}

/// The kernels move two and three buffers; they are told how many elements a buffer
/// has, to go over it four times, and the triad its scalar. No element lies outside the
/// buffer, and less than one is left over.
pub proof fn law_kernels(k: Kernel)
    ensures
        Kernel::Copy.buffer_count() == 2,
        Kernel::Triad.buffer_count() == 3,
        k.constants()[0] * 16 <= k.buffer_size() < (k.constants()[0] + 1) * 16,
        k.constants()[1] == 4,
        Kernel::Copy.constants().len() == 2,
        Kernel::Triad.constants().len() == 3,
        Kernel::Triad.constants()[2] == 3,
        Kernel::Copy.buffer_size() == 0x2000_0000,
        Kernel::Triad.buffer_size() == 0x4000_0000int / 3,
{
    law_buffers_share_working_set(k);
    assert(Kernel::Copy.buffer_size() == 536_870_912);
    assert(Kernel::Triad.buffer_size() == 357_913_941);
}

/// The best of five trials counts; a workgroup has 256 invocations, a dispatch at most
/// 65535 workgroups, and the working set is 1 GiB.
pub proof fn law_probe_limits()
    ensures
        TRIALS == 5,
        WG_SIZE == 256,
        LOOPS_PER_DISPATCH == 4,
        MAX_GROUPS == 65_535,
        WORKING_SET_BYTES == 1024 * 1024 * 1024,
{
}

/// A dispatch is announced with its workgroups, and with 256 times as many invocations.
pub proof fn law_dispatch_is_announced(groups: u32)
    ensures
        dispatch_text(groups) == "dispatch: "@ + decimal(groups as nat) + " workgroups × "@
            + decimal(256) + " threads = "@ + decimal((256 * groups) as nat) + " invocations"@,
{
}

} // verus!
