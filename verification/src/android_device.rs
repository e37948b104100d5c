//! The Vulkan device on Android: which adapter and extensions it takes, how
//! many descriptors a conversion may use, and how many conversions may wait.
use crate::text::{decimal, push_decimal, text_is};
use crate::vulkan::{api_version_1_1, contains_bits, has_bits, out_of_pool_memory};
use vstd::arithmetic::power2::{lemma2_to64, lemma_pow2_unfold, pow2};
use vstd::prelude::*;

verus! {

/// Conversions that may wait for their commands to finish.
pub const MAX_PENDING_AHB_CONVERSIONS: usize = 3;

/// Why a conversion did not come about.
#[derive(Debug, Clone, PartialEq, Eq)]
pub enum AndroidAhbConversionError {
    /// Too many conversions are waiting.
    Backpressure { pending: usize, max: usize },
    Interop(String),
}

impl AndroidAhbConversionError {
    /// The text of the error.
    pub open spec fn text(self) -> Seq<char> {
        match self {
            AndroidAhbConversionError::Backpressure { pending, max } => {
                "stage=reserve_ahb_conversion reason=retirement_capacity_exhausted pending="@
                    + decimal(pending as nat) + " max="@ + decimal(max as nat)
            },
            AndroidAhbConversionError::Interop(message) => message@,
        }
    }

    pub fn message(&self) -> (message: String)
        ensures
            message@ == self.text(),
    {
        match self {
            AndroidAhbConversionError::Backpressure { pending, max } => {
                let mut text: String =
                    "stage=reserve_ahb_conversion reason=retirement_capacity_exhausted pending=".to_owned();
                push_decimal(&mut text, *pending as u64);
                text.append(" max=");
                push_decimal(&mut text, *max as u64);
                text
            },
            AndroidAhbConversionError::Interop(message) => message.clone(),
        }
    }
}

/// How many conversions are waiting.
#[derive(Debug, Clone, Copy, PartialEq, Eq, Structural)]
pub struct PendingConversions {
    pub count: usize,
}

impl PendingConversions {
    /// No more than allowed are waiting.
    pub open spec fn wf(self) -> bool {
        self.count <= MAX_PENDING_AHB_CONVERSIONS
    }

    pub fn new() -> (pending: Self)
        ensures
            pending.wf(),
            pending.count == 0,
    {
        PendingConversions { count: 0 }
    }

    /// Makes room for one more conversion. Where too many are waiting nothing
    /// changes.
    pub fn reserve(&mut self) -> (reserved: Result<(), AndroidAhbConversionError>)
        ensures
            match reserved {
                Ok(()) => {
                    &&& old(self).count < MAX_PENDING_AHB_CONVERSIONS
                    &&& final(self).count == old(self).count + 1
                    &&& final(self).wf()
                },
                Err(error) => {
                    &&& old(self).count >= MAX_PENDING_AHB_CONVERSIONS
                    &&& *final(self) == *old(self)
                    &&& error == (AndroidAhbConversionError::Backpressure {
                        pending: old(self).count,
                        max: MAX_PENDING_AHB_CONVERSIONS,
                    })
                },
            },
    {
        if self.count >= MAX_PENDING_AHB_CONVERSIONS {
            return Err(
                AndroidAhbConversionError::Backpressure {
                    pending: self.count,
                    max: MAX_PENDING_AHB_CONVERSIONS,
                },
            );
        }
        self.count = self.count + 1;
        Ok(())
    }

    /// Gives back the room of a conversion that has finished or was given up.
    pub fn release(&mut self)
        requires
            old(self).count > 0,
        ensures
            final(self).count == old(self).count - 1,
            old(self).wf() ==> final(self).wf(),
    {
        self.count = self.count - 1;
    }
}

/// Room for a conversion that is being set up. Unless it is committed, it has
/// to be given back.
#[derive(Debug, PartialEq, Eq)]
pub struct PendingConversionReservation {
    pub active: bool,
}

impl PendingConversionReservation {
    pub fn new() -> (reservation: Self)
        ensures
            reservation.active,
    {
        PendingConversionReservation { active: true }
    }

    /// Hands the room over to the conversion that was set up.
    pub fn commit(&mut self)
        ensures
            !final(self).active,
    {
        self.active = false;
    }

    /// Ends the reservation: the room is given back unless it was handed over.
    pub fn end(self, pending: &mut PendingConversions)
        requires
            self.active ==> old(pending).count > 0,
        ensures
            final(pending).count == if self.active {
                old(pending).count - 1
            } else {
                old(pending).count as int
            },
    {
        if self.active {
            pending.release();
        }
    }
}

/// Twice as much, but no more than the limit, and at least one.
pub open spec fn grown(current: u32, limit: u32) -> int {
    let doubled = 2 * current;
    let capped = if doubled > limit {
        limit as int
    } else {
        doubled
    };
    if capped < 1 {
        1
    } else {
        capped
    }
}

pub fn next_descriptor_budget(current: u32, limit: u32) -> (next: u32)
    ensures
        next == grown(current, limit),
{
    let capped: u32 = if current > limit / 2 {
        limit
    } else {
        current * 2
    };
    if capped < 1 {
        1
    } else {
        capped
    }
}

/// The budget after a number of steps of growth.
pub open spec fn grown_by_steps(current: u32, limit: u32, steps: nat) -> int
    decreases steps,
{
    if steps == 0 {
        current as int
    } else {
        grown(grown_by_steps(current, limit, (steps - 1) as nat) as u32, limit)
    }
}

/// After some steps the budget has doubled as often, or has reached the limit.
proof fn lemma_grown_by_steps(current: u32, limit: u32, steps: nat)
    requires
        1 <= limit,
        1 <= current,
        steps <= 32,
    ensures
        1 <= grown_by_steps(current, limit, steps) <= u32::MAX,
        steps > 0 ==> grown_by_steps(current, limit, steps) <= limit,
        grown_by_steps(current, limit, steps) >= limit || grown_by_steps(current, limit, steps)
            >= pow2(steps),
    decreases steps,
{
    if steps == 0 {
        lemma2_to64();
    } else {
        lemma_grown_by_steps(current, limit, (steps - 1) as nat);
        lemma_pow2_unfold(steps);
    }
}

/// Growth never goes past the limit, and every step below it is a real one: the
/// limit is reached after at most 32 steps.
pub proof fn law_budgets_grow_up_to_the_limit(current: u32, limit: u32)
    requires
        1 <= limit,
    ensures
        1 <= grown(current, limit) <= limit,
        1 <= current < limit ==> grown(current, limit) > current,
        current >= limit ==> grown(current, limit) == limit,
        1 <= current ==> grown_by_steps(current, limit, 32) == limit,
{
    if 1 <= current {
        lemma_grown_by_steps(current, limit, 32);
        lemma2_to64();
    }
}

/// Where the number of descriptors for a conversion comes from.
#[derive(Debug, Clone, Copy, PartialEq, Eq)]
pub struct YcbcrDescriptorBudgetPolicy {
    pub limit: u32,
    pub source: &'static str,
}

/// The smallest of four limits, at least one.
pub open spec fn smallest_limit(limits: Seq<u32>) -> u32 {
    let a = if limits[0] < limits[1] {
        limits[0]
    } else {
        limits[1]
    };
    let b = if limits[2] < limits[3] {
        limits[2]
    } else {
        limits[3]
    };
    let c = if a < b {
        a
    } else {
        b
    };
    if c < 1 {
        1
    } else {
        c
    }
}

/// The limit of descriptors for one conversion: what the device says of
/// combined samplers, where it says anything, else what its layouts allow.
pub fn ycbcr_descriptor_budget_policy(combined_samplers: Option<u32>, limits: [u32; 4]) -> (
policy: YcbcrDescriptorBudgetPolicy)
    ensures
        match combined_samplers {
            Some(count) => count > 0 ==> policy.limit == count && policy.source@
                == "VK_KHR_maintenance6"@,
            None => true,
        },
        combined_samplers is None || combined_samplers == Some(0u32) ==> policy.limit
            == smallest_limit(limits@) && policy.source@ == "descriptor layout limits"@,
        policy.limit >= 1,
{
    if let Some(count) = combined_samplers {
        if count > 0 {
            return YcbcrDescriptorBudgetPolicy { limit: count, source: "VK_KHR_maintenance6" };
        }
    }
    let a: u32 = if limits[0] < limits[1] {
        limits[0]
    } else {
        limits[1]
    };
    let b: u32 = if limits[2] < limits[3] {
        limits[2]
    } else {
        limits[3]
    };
    let c: u32 = if a < b {
        a
    } else {
        b
    };
    YcbcrDescriptorBudgetPolicy {
        limit: if c < 1 {
            1
        } else {
            c
        },
        source: "descriptor layout limits",
    }
}

/// The search for a pool of descriptors that is large enough.
#[derive(Debug, Clone, Copy, PartialEq, Eq, Structural)]
pub struct DescriptorBudget {
    pub budget: u32,
    pub limit: u32,
}

/// What follows from an allocation.
#[derive(Debug, Clone, Copy, PartialEq, Eq, Structural)]
pub enum DescriptorStep {
    /// The pool was large enough.
    Done,
    /// A larger pool is to be tried.
    Retry,
    /// The allocation failed for good.
    Fail,
}

impl DescriptorBudget {
    /// At least one descriptor, and no more than the limit.
    pub open spec fn wf(self) -> bool {
        1 <= self.budget <= self.limit
    }

    /// Starts with what was enough the last time.
    pub fn start(hint: u32, limit: u32) -> (search: Self)
        ensures
            search.wf(),
            search.limit == if limit < 1 {
                1
            } else {
                limit
            },
            search.budget == if hint < 1 {
                1
            } else if hint > search.limit {
                search.limit
            } else {
                hint
            },
    {
        let limit: u32 = if limit < 1 {
            1
        } else {
            limit
        };
        let budget: u32 = if hint < 1 {
            1
        } else if hint > limit {
            limit
        } else {
            hint
        };
        DescriptorBudget { budget, limit }
    }

    /// What to start with the next time: the larger of what was remembered and
    /// what was enough now.
    pub fn remembered(&self, hint: u32) -> (next: u32)
        ensures
            next == if self.budget > hint {
                self.budget
            } else {
                hint
            },
    {
        if self.budget > hint {
            self.budget
        } else {
            hint
        }
    }

    /// Takes in how an allocation ended: no error, or a Vulkan error. A pool
    /// that was too small is grown until the limit is reached.
    pub fn allocated(&mut self, error: Option<i32>) -> (step: DescriptorStep)
        requires
            old(self).wf(),
        ensures
            final(self).wf(),
            final(self).limit == old(self).limit,
            step == match error {
                None => DescriptorStep::Done,
                Some(code) => if code == -1_000_069_000 && old(self).budget < old(self).limit {
                    DescriptorStep::Retry
                } else {
                    DescriptorStep::Fail
                },
            },
            step == DescriptorStep::Retry ==> {
                &&& final(self).budget == grown(old(self).budget, old(self).limit)
                &&& final(self).budget > old(self).budget
            },
            step != DescriptorStep::Retry ==> *final(self) == *old(self),
    {
        match error {
            None => DescriptorStep::Done,
            Some(code) => if code == out_of_pool_memory() && self.budget < self.limit {
                self.budget = next_descriptor_budget(self.budget, self.limit);
                DescriptorStep::Retry
            } else {
                DescriptorStep::Fail
            },
        }
    }
}

/// Bits of `wgpu::InstanceFlags`: whether debugging is on, and whether labels
/// of objects are thrown away.
#[derive(Debug, Clone, Copy, PartialEq, Eq, Structural)]
pub struct InstanceFlagBits {
    pub debug: u32,
    pub discard_hal_labels: u32,
}

/// `wgpu::InstanceFlags` of the `wgpu` crate: two of its bits, as raw numbers.
#[verifier::external_body]
fn instance_flag_bits() -> (bits: InstanceFlagBits)
    ensures
        bits == (InstanceFlagBits { debug: 0x1, discard_hal_labels: 0x4 }),
{
    InstanceFlagBits {
        debug: wgpu::InstanceFlags::DEBUG.bits(),
        discard_hal_labels: wgpu::InstanceFlags::DISCARD_HAL_LABELS.bits(),
    }
}

/// The flags of the instance that frames are shared through: without debugging,
/// which names objects in a way that some drivers do not survive, and with all
/// other flags as requested.
pub fn android_custom_vulkan_instance_flags(flags: u32) -> (custom: u32)
    ensures
        custom == (flags & !0x1u32) | 0x4,
        !has_bits(custom, 0x1),
        has_bits(custom, 0x4),
        custom & !0x5u32 == flags & !0x5u32,
{
    let bits = instance_flag_bits();
    let custom: u32 = (flags & !bits.debug) | bits.discard_hal_labels;
    proof {
        assert(((flags & !0x1u32) | 0x4) & 0x1 == 0 && ((flags & !0x1u32) | 0x4) & 0x4 == 0x4 && (((
        flags & !0x1u32) | 0x4) & !0x5u32) == flags & !0x5u32) by (bit_vector);
    }
    custom
}

/// What kind of processor an adapter is.
#[derive(Debug, Clone, Copy, PartialEq, Eq, Structural)]
pub enum AdapterKind {
    Discrete,
    Integrated,
    Virtual,
    Other,
    Cpu,
}

/// The place of a kind of adapter, the most wanted first.
pub open spec fn rank(kind: AdapterKind) -> int {
    match kind {
        AdapterKind::Discrete => 0,
        AdapterKind::Integrated => 1,
        AdapterKind::Virtual => 2,
        AdapterKind::Other => 3,
        AdapterKind::Cpu => 4,
    }
}

pub fn adapter_rank(kind: AdapterKind) -> (place: u8)
    ensures
        place == rank(kind),
{
    match kind {
        AdapterKind::Discrete => 0,
        AdapterKind::Integrated => 1,
        AdapterKind::Virtual => 2,
        AdapterKind::Other => 3,
        AdapterKind::Cpu => 4,
    }
}

/// Chooses the first of the most wanted adapters.
pub fn choose_adapter(kinds: &[AdapterKind]) -> (chosen: Result<usize, String>)
    ensures
        match chosen {
            Ok(i) => {
                &&& i < kinds@.len()
                &&& forall|j: int|
                    0 <= j < kinds@.len() ==> rank(kinds@[i as int]) <= rank(#[trigger] kinds@[j])
                &&& forall|j: int|
                    0 <= j < i ==> rank(kinds@[i as int]) < rank(#[trigger] kinds@[j])
            },
            Err(text) => kinds@.len() == 0 && text@ == "custom Vulkan instance found no adapters"@,
        },
{
    if kinds.len() == 0 {
        return Err("custom Vulkan instance found no adapters".to_owned());
    }
    let mut best: usize = 0;
    let mut i: usize = 1;
    while i < kinds.len()
        invariant
            1 <= i <= kinds@.len(),
            best < i,
            forall|j: int| 0 <= j < i ==> rank(kinds@[best as int]) <= rank(#[trigger] kinds@[j]),
            forall|j: int| 0 <= j < best ==> rank(kinds@[best as int]) < rank(#[trigger] kinds@[j]),
        decreases kinds@.len() - i,
    {
        if adapter_rank(kinds[i]) < adapter_rank(kinds[best]) {
            best = i;
        }
        i = i + 1;
    }
    Ok(best)
}

/// Names of extensions in the `ash` crate that every device needs to share
/// frames, as text.
#[verifier::external_body]
fn shared_frame_extension_names() -> (names: Vec<String>)
    ensures
        names@.len() == 2,
        names@[0]@ == "VK_ANDROID_external_memory_android_hardware_buffer"@,
        names@[1]@ == "VK_EXT_queue_family_foreign"@,
{
    vec![
        ash::android::external_memory_android_hardware_buffer::NAME.to_string_lossy().into_owned(),
        ash::ext::queue_family_foreign::NAME.to_string_lossy().into_owned(),
    ]
}

/// Names of extensions in the `ash` crate that became part of Vulkan 1.1, as
/// text.
#[verifier::external_body]
fn promoted_extension_names() -> (names: Vec<String>)
    ensures
        names@.len() == 6,
        names@[0]@ == "VK_KHR_maintenance1"@,
        names@[1]@ == "VK_KHR_bind_memory2"@,
        names@[2]@ == "VK_KHR_get_memory_requirements2"@,
        names@[3]@ == "VK_KHR_sampler_ycbcr_conversion"@,
        names@[4]@ == "VK_KHR_external_memory"@,
        names@[5]@ == "VK_KHR_dedicated_allocation"@,
{
    vec![
        ash::khr::maintenance1::NAME.to_string_lossy().into_owned(),
        ash::khr::bind_memory2::NAME.to_string_lossy().into_owned(),
        ash::khr::get_memory_requirements2::NAME.to_string_lossy().into_owned(),
        ash::khr::sampler_ycbcr_conversion::NAME.to_string_lossy().into_owned(),
        ash::khr::external_memory::NAME.to_string_lossy().into_owned(),
        ash::khr::dedicated_allocation::NAME.to_string_lossy().into_owned(),
    ]
}

/// Names of extensions in the `ash` crate that an instance of Vulkan 1.0 needs,
/// as text.
#[verifier::external_body]
fn instance_extension_names() -> (names: Vec<String>)
    ensures
        names@.len() == 2,
        names@[0]@ == "VK_KHR_get_physical_device_properties2"@,
        names@[1]@ == "VK_KHR_external_memory_capabilities"@,
{
    vec![
        ash::khr::get_physical_device_properties2::NAME.to_string_lossy().into_owned(),
        ash::khr::external_memory_capabilities::NAME.to_string_lossy().into_owned(),
    ]
}

/// The texts of a list of strings.
pub open spec fn texts(names: Seq<String>) -> Seq<Seq<char>> {
    names.map_values(|name: String| name@)
}

/// The extensions that a device of this version needs.
pub open spec fn needed_extensions(api_version: u32) -> Seq<Seq<char>> {
    seq![
        "VK_ANDROID_external_memory_android_hardware_buffer"@,
        "VK_EXT_queue_family_foreign"@,
    ] + if api_version < 0x40_1000 {
        seq![
            "VK_KHR_maintenance1"@,
            "VK_KHR_bind_memory2"@,
            "VK_KHR_get_memory_requirements2"@,
            "VK_KHR_sampler_ycbcr_conversion"@,
            "VK_KHR_external_memory"@,
            "VK_KHR_dedicated_allocation"@,
        ]
    } else {
        seq![]
    }
}

/// Lists the extensions that a device of this version needs.
pub fn required_device_extensions(api_version: u32) -> (names: Vec<String>)
    ensures
        texts(names@) == needed_extensions(api_version),
{
    let mut names: Vec<String> = shared_frame_extension_names();
    if api_version < api_version_1_1() {
        let mut promoted: Vec<String> = promoted_extension_names();
        names.append(&mut promoted);
    }
    proof {
        assert(texts(names@) =~= needed_extensions(api_version));
    }
    names
}

fn is_listed(name: &String, list: &[String]) -> (listed: bool)
    ensures
        listed == texts(list@).contains(name@),
{
    let mut i: usize = 0;
    while i < list.len()
        invariant
            i <= list@.len(),
            forall|k: int| 0 <= k < i ==> (#[trigger] list@[k])@ != name@,
        decreases list@.len() - i,
    {
        if text_is(list[i].as_str(), name.as_str()) {
            proof {
                assert(texts(list@)[i as int] == name@);
            }
            return true;
        }
        i = i + 1;
    }
    proof {
        assert forall|k: int| 0 <= k < texts(list@).len() implies texts(list@)[k] != name@ by {
            assert(list@[k]@ != name@);
        }
    }
    false
}

/// The needed names that are not available, in order.
pub open spec fn missing(needed: Seq<Seq<char>>, available: Seq<Seq<char>>) -> Seq<Seq<char>>
    decreases needed.len(),
{
    if needed.len() == 0 {
        seq![]
    } else if available.contains(needed.last()) {
        missing(needed.drop_last(), available)
    } else {
        missing(needed.drop_last(), available).push(needed.last())
    }
}

/// The names with a comma between each two.
pub open spec fn joined(names: Seq<Seq<char>>) -> Seq<char>
    decreases names.len(),
{
    if names.len() == 0 {
        seq![]
    } else if names.len() == 1 {
        names[0]
    } else {
        joined(names.drop_last()) + ", "@ + names.last()
    }
}

pub open spec fn missing_text(names: Seq<Seq<char>>) -> Seq<char> {
    "Vulkan adapter lacks Android shared-frame extensions: "@ + joined(names)
}

/// Checks that a device has all the extensions that sharing frames takes.
pub fn check_device_extensions(api_version: u32, available: &[String]) -> (checked: Result<
    Vec<String>,
    String,
>)
    ensures
        match checked {
            Ok(names) => {
                &&& texts(names@) == needed_extensions(api_version)
                &&& missing(needed_extensions(api_version), texts(available@)).len() == 0
            },
            Err(text) => {
                &&& missing(needed_extensions(api_version), texts(available@)).len() > 0
                &&& text@ == missing_text(
                    missing(needed_extensions(api_version), texts(available@)),
                )
            },
        },
{
    let names: Vec<String> = required_device_extensions(api_version);
    let ghost all = texts(names@);
    let ghost have = texts(available@);
    let mut list: String = "".to_owned();
    let mut count: usize = 0;
    let mut i: usize = 0;
    proof {
        reveal_strlit("");
        assert(list@ =~= seq![]);
        assert(all.take(0).len() == 0);
    }
    while i < names.len()
        invariant
            i <= names@.len(),
            all == texts(names@),
            have == texts(available@),
            count <= i,
            count == missing(all.take(i as int), have).len(),
            list@ == joined(missing(all.take(i as int), have)),
        decreases names@.len() - i,
    {
        proof {
            assert(all.take(i + 1).drop_last() =~= all.take(i as int));
            assert(all.take(i + 1).last() == names@[i as int]@);
        }
        if !is_listed(&names[i], available) {
            let ghost before = missing(all.take(i as int), have);
            if count > 0 {
                list.append(", ");
            }
            list.append(names[i].as_str());
            proof {
                let after = missing(all.take(i + 1), have);
                assert(after == before.push(names@[i as int]@));
                assert(after.drop_last() =~= before);
                if before.len() == 0 {
                    assert(list@ =~= after[0]);
                }
            }
            count = count + 1;
        }
        i = i + 1;
    }
    proof {
        assert(all.take(names@.len() as int) =~= all);
    }
    if count > 0 {
        let mut text: String = "Vulkan adapter lacks Android shared-frame extensions: ".to_owned();
        text.append(list.as_str());
        return Err(text);
    }
    Ok(names)
}

/// Checks that frames can be shared with a device: it has the extensions, and
/// its samplers convert colours.
pub fn check_device(api_version: u32, available: &[String], converts_ycbcr: bool) -> (
checked: Result<Vec<String>, String>)
    ensures
        ({
            let lacking = missing(needed_extensions(api_version), texts(available@));
            match checked {
                Ok(names) => {
                    &&& texts(names@) == needed_extensions(api_version)
                    &&& lacking.len() == 0
                    &&& converts_ycbcr
                },
                Err(text) => if lacking.len() > 0 {
                    text@ == missing_text(lacking)
                } else {
                    !converts_ycbcr && text@
                        == "Vulkan samplerYcbcrConversion feature is unavailable"@
                },
            }
        }),
{
    match check_device_extensions(api_version, available) {
        Ok(names) => {
            if !converts_ycbcr {
                return Err("Vulkan samplerYcbcrConversion feature is unavailable".to_owned());
            }
            Ok(names)
        },
        Err(text) => Err(text),
    }
}

pub open spec fn instance_extension_text(name: Seq<char>) -> Seq<char> {
    "Vulkan 1.0 adapter lacks required instance extension "@ + name
}

/// Checks that an instance of Vulkan 1.0 has the extensions that later versions
/// hold themselves. The first that is missing is reported.
pub fn check_instance_extensions(api_version: u32, enabled: &[String]) -> (checked: Result<
    (),
    String,
>)
    ensures
        ({
            let first = "VK_KHR_get_physical_device_properties2"@;
            let second = "VK_KHR_external_memory_capabilities"@;
            let has_first = texts(enabled@).contains(first);
            let has_second = texts(enabled@).contains(second);
            match checked {
                Ok(()) => api_version >= 0x40_1000 || (has_first && has_second),
                Err(text) => {
                    &&& api_version < 0x40_1000
                    &&& !has_first ==> text@ == instance_extension_text(first)
                    &&& has_first ==> !has_second && text@ == instance_extension_text(second)
                },
            }
        }),
{
    if api_version >= api_version_1_1() {
        return Ok(());
    }
    let names: Vec<String> = instance_extension_names();
    let mut text: String = "Vulkan 1.0 adapter lacks required instance extension ".to_owned();
    if !is_listed(&names[0], enabled) {
        text.append(names[0].as_str());
        return Err(text);
    }
    if !is_listed(&names[1], enabled) {
        text.append(names[1].as_str());
        return Err(text);
    }
    Ok(())
}

/// The extensions to add to an instance of Vulkan 1.0: those of the two that are
/// available and not enabled yet.
pub fn extra_instance_extensions(api_version: u32, available: &[String], enabled: &[String]) -> (
extra: Vec<String>)
    ensures
        ({
            let first = "VK_KHR_get_physical_device_properties2"@;
            let second = "VK_KHR_external_memory_capabilities"@;
            let add_first = api_version < 0x40_1000 && texts(available@).contains(first) && !texts(
                enabled@,
            ).contains(first);
            let add_second = api_version < 0x40_1000 && texts(available@).contains(second)
                && !texts(enabled@).contains(second);
            texts(extra@) == (if add_first {
                seq![first]
            } else {
                seq![]
            }) + (if add_second {
                seq![second]
            } else {
                seq![]
            })
        }),
{
    let mut extra: Vec<String> = Vec::new();
    if api_version < api_version_1_1() {
        let names: Vec<String> = instance_extension_names();
        if is_listed(&names[0], available) && !is_listed(&names[0], enabled) {
            extra.push(names[0].clone());
        }
        if is_listed(&names[1], available) && !is_listed(&names[1], enabled) {
            extra.push(names[1].clone());
        }
    }
    proof {
        let first = "VK_KHR_get_physical_device_properties2"@;
        let second = "VK_KHR_external_memory_capabilities"@;
        let add_first = api_version < 0x40_1000 && texts(available@).contains(first) && !texts(
            enabled@,
        ).contains(first);
        let add_second = api_version < 0x40_1000 && texts(available@).contains(second) && !texts(
            enabled@,
        ).contains(second);
        assert(texts(extra@) =~= (if add_first {
            seq![first]
        } else {
            seq![]
        }) + (if add_second {
            seq![second]
        } else {
            seq![]
        }));
    }
    extra
}

/// Bits of `wgpu::TextureUsages` and `wgpu::TextureFormatFeatureFlags`.
#[derive(Debug, Clone, Copy, PartialEq, Eq, Structural)]
pub struct TextureBits {
    pub texture_binding: u32,
    pub render_attachment: u32,
    pub filterable: u32,
}

/// `wgpu::TextureUsages` and `wgpu::TextureFormatFeatureFlags` of the `wgpu`
/// crate: three of their bits, as raw numbers.
#[verifier::external_body]
fn texture_bits() -> (bits: TextureBits)
    ensures
        bits == (TextureBits { texture_binding: 0x4, render_attachment: 0x10, filterable: 0x1 }),
{
    TextureBits {
        texture_binding: wgpu::TextureUsages::TEXTURE_BINDING.bits(),
        render_attachment: wgpu::TextureUsages::RENDER_ATTACHMENT.bits(),
        filterable: wgpu::TextureFormatFeatureFlags::FILTERABLE.bits(),
    }
}

/// Whether a texture format can be rendered to, sampled and filtered.
pub fn supports_intermediate(allowed_usages: u32, format_flags: u32) -> (supported: bool)
    ensures
        supported == (has_bits(allowed_usages, 0x14) && has_bits(format_flags, 0x1)),
{
    let bits = texture_bits();
    proof {
        assert(0x10u32 | 0x4u32 == 0x14u32) by (bit_vector);
    }
    contains_bits(allowed_usages, bits.render_attachment | bits.texture_binding)
        && contains_bits(format_flags, bits.filterable)
}

} // verus!
