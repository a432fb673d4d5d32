//! What the binary of a shader needs of a device.
use vstd::prelude::*;

use crate::errors::VulkanError;
use crate::ordered::OrderedSet;
use crate::text::{decimal_text, decimal_u64, join3};
use crate::values::{OrderedKey, PlainValue};

verus! {

/// The word that every SPIR-V module starts with.
pub const SPIRV_MAGIC: u32 = 0x0723_0203;

/// The number of the instruction that declares a capability.
pub const SPIRV_OP_CAPABILITY: u16 = 17;

/// The number of the instruction that declares the memory model.
pub const SPIRV_OP_MEMORY_MODEL: u16 = 14;

/// The words before the first instruction of a module.
pub const SPIRV_HEADER_WORDS: usize = 5;

/// The number of the Vulkan memory model.
pub const SPIRV_VULKAN_MEMORY_MODEL: u32 = 3;

/// A feature of a device that a shader needs.
#[derive(Clone, Copy, Debug, PartialEq, Eq, Structural)]
pub enum VulkanShaderFeature {
    ShaderFloat16,
    ShaderInt64,
    ShaderInt16,
    ShaderInt8,
    StorageBuffer16BitAccess,
    StorageBuffer8BitAccess,
    ShaderFloat8,
    ShaderFloat8CooperativeMatrix,
    ShaderBfloat16Type,
    ShaderBfloat16CooperativeMatrix,
    VulkanMemoryModel,
    BufferDeviceAddress,
    ShaderIntegerDotProduct,
    CooperativeMatrix,
    ShaderMixedFloatDotProductBfloat16Acc,
    ShaderMixedFloatDotProductFloat8AccFloat32,
}

impl DeepView for VulkanShaderFeature {
    type V = VulkanShaderFeature;

    open spec fn deep_view(&self) -> VulkanShaderFeature {
        *self
    }
}

impl PlainValue for VulkanShaderFeature {
    fn duplicate(&self) -> (copy: Self) {
        *self
    }

    fn same(&self, other: &Self) -> (equal: bool) {
        *self == *other
    }
}

/// The place of a value in the order of the values.
pub open spec fn feature_rank(value: VulkanShaderFeature) -> int {
    match value {
        VulkanShaderFeature::ShaderFloat16 => 0,
        VulkanShaderFeature::ShaderInt64 => 1,
        VulkanShaderFeature::ShaderInt16 => 2,
        VulkanShaderFeature::ShaderInt8 => 3,
        VulkanShaderFeature::StorageBuffer16BitAccess => 4,
        VulkanShaderFeature::StorageBuffer8BitAccess => 5,
        VulkanShaderFeature::ShaderFloat8 => 6,
        VulkanShaderFeature::ShaderFloat8CooperativeMatrix => 7,
        VulkanShaderFeature::ShaderBfloat16Type => 8,
        VulkanShaderFeature::ShaderBfloat16CooperativeMatrix => 9,
        VulkanShaderFeature::VulkanMemoryModel => 10,
        VulkanShaderFeature::BufferDeviceAddress => 11,
        VulkanShaderFeature::ShaderIntegerDotProduct => 12,
        VulkanShaderFeature::CooperativeMatrix => 13,
        VulkanShaderFeature::ShaderMixedFloatDotProductBfloat16Acc => 14,
        VulkanShaderFeature::ShaderMixedFloatDotProductFloat8AccFloat32 => 15,
    }
}

impl VulkanShaderFeature {
    fn rank(&self) -> (rank: u8)
        ensures
            rank == feature_rank(*self),
    {
        match self {
            VulkanShaderFeature::ShaderFloat16 => 0,
            VulkanShaderFeature::ShaderInt64 => 1,
            VulkanShaderFeature::ShaderInt16 => 2,
            VulkanShaderFeature::ShaderInt8 => 3,
            VulkanShaderFeature::StorageBuffer16BitAccess => 4,
            VulkanShaderFeature::StorageBuffer8BitAccess => 5,
            VulkanShaderFeature::ShaderFloat8 => 6,
            VulkanShaderFeature::ShaderFloat8CooperativeMatrix => 7,
            VulkanShaderFeature::ShaderBfloat16Type => 8,
            VulkanShaderFeature::ShaderBfloat16CooperativeMatrix => 9,
            VulkanShaderFeature::VulkanMemoryModel => 10,
            VulkanShaderFeature::BufferDeviceAddress => 11,
            VulkanShaderFeature::ShaderIntegerDotProduct => 12,
            VulkanShaderFeature::CooperativeMatrix => 13,
            VulkanShaderFeature::ShaderMixedFloatDotProductBfloat16Acc => 14,
            VulkanShaderFeature::ShaderMixedFloatDotProductFloat8AccFloat32 => 15,
        }
    }
}

impl OrderedKey for VulkanShaderFeature {
    open spec fn before(left: Self, right: Self) -> bool {
        feature_rank(left) < feature_rank(right)
    }

    proof fn order_is_irreflexive(value: Self) {
    }

    proof fn order_is_transitive(first: Self, second: Self, third: Self) {
    }

    proof fn order_is_total(left: Self, right: Self) {
    }

    fn precedes(&self, other: &Self) -> (result: bool) {
        self.rank() < other.rank()
    }
}

/// An operation of subgroups that a shader needs.
#[derive(Clone, Copy, Debug, PartialEq, Eq, Structural)]
pub enum VulkanSubgroupOperation {
    Basic,
    Arithmetic,
    ShuffleRelative,
}

impl DeepView for VulkanSubgroupOperation {
    type V = VulkanSubgroupOperation;

    open spec fn deep_view(&self) -> VulkanSubgroupOperation {
        *self
    }
}

impl PlainValue for VulkanSubgroupOperation {
    fn duplicate(&self) -> (copy: Self) {
        *self
    }

    fn same(&self, other: &Self) -> (equal: bool) {
        *self == *other
    }
}

/// The place of a value in the order of the values.
pub open spec fn operation_rank(value: VulkanSubgroupOperation) -> int {
    match value {
        VulkanSubgroupOperation::Basic => 0,
        VulkanSubgroupOperation::Arithmetic => 1,
        VulkanSubgroupOperation::ShuffleRelative => 2,
    }
}

impl VulkanSubgroupOperation {
    fn rank(&self) -> (rank: u8)
        ensures
            rank == operation_rank(*self),
    {
        match self {
            VulkanSubgroupOperation::Basic => 0,
            VulkanSubgroupOperation::Arithmetic => 1,
            VulkanSubgroupOperation::ShuffleRelative => 2,
        }
    }
}

impl OrderedKey for VulkanSubgroupOperation {
    open spec fn before(left: Self, right: Self) -> bool {
        operation_rank(left) < operation_rank(right)
    }

    proof fn order_is_irreflexive(value: Self) {
    }

    proof fn order_is_transitive(first: Self, second: Self, third: Self) {
    }

    proof fn order_is_total(left: Self, right: Self) {
    }

    fn precedes(&self, other: &Self) -> (result: bool) {
        self.rank() < other.rank()
    }
}

/// What a shader needs of a device.
#[derive(Debug, PartialEq, Eq)]
pub struct VulkanSpirvRequirements {
    pub shader_features: OrderedSet<VulkanShaderFeature>,
    pub subgroup_operations: OrderedSet<VulkanSubgroupOperation>,
}

/// The model of [`VulkanSpirvRequirements`].
pub struct VulkanSpirvRequirementsModel {
    pub shader_features: Set<VulkanShaderFeature>,
    pub subgroup_operations: Set<VulkanSubgroupOperation>,
}

impl DeepView for VulkanSpirvRequirements {
    type V = VulkanSpirvRequirementsModel;

    open spec fn deep_view(&self) -> VulkanSpirvRequirementsModel {
        VulkanSpirvRequirementsModel {
            shader_features: self.shader_features.deep_view(),
            subgroup_operations: self.subgroup_operations.deep_view(),
        }
    }
}

impl Clone for VulkanSpirvRequirements {
    fn clone(&self) -> (copy: Self)
        ensures
            copy.deep_view() == self.deep_view(),
    {
        self.duplicate()
    }
}

impl PlainValue for VulkanSpirvRequirements {
    fn duplicate(&self) -> (copy: Self) {
        VulkanSpirvRequirements {
            shader_features: self.shader_features.duplicate(),
            subgroup_operations: self.subgroup_operations.duplicate(),
        }
    }

    fn same(&self, other: &Self) -> (equal: bool) {
        self.shader_features.same(&other.shader_features)
            && self.subgroup_operations.same(&other.subgroup_operations)
    }
}

/// What a capability of a shader needs of a device.
#[derive(Clone, Copy, Debug, PartialEq, Eq, Structural)]
pub enum CapabilityNeed {
    Nothing,
    Feature(VulkanShaderFeature),
    Operation(VulkanSubgroupOperation),
}

/// What a capability needs, where it is known.
pub open spec fn capability_need(capability: u32) -> Option<CapabilityNeed> {
    if capability == 1 {
        Some(CapabilityNeed::Nothing)
    } else if capability == 9 {
        Some(CapabilityNeed::Feature(VulkanShaderFeature::ShaderFloat16))
    } else if capability == 11 {
        Some(CapabilityNeed::Feature(VulkanShaderFeature::ShaderInt64))
    } else if capability == 22 {
        Some(CapabilityNeed::Feature(VulkanShaderFeature::ShaderInt16))
    } else if capability == 39 {
        Some(CapabilityNeed::Feature(VulkanShaderFeature::ShaderInt8))
    } else if capability == 4433 {
        Some(CapabilityNeed::Feature(VulkanShaderFeature::StorageBuffer16BitAccess))
    } else if capability == 4448 {
        Some(CapabilityNeed::Feature(VulkanShaderFeature::StorageBuffer8BitAccess))
    } else if capability == 4212 {
        Some(CapabilityNeed::Feature(VulkanShaderFeature::ShaderFloat8))
    } else if capability == 4213 {
        Some(CapabilityNeed::Feature(VulkanShaderFeature::ShaderFloat8CooperativeMatrix))
    } else if capability == 5116 {
        Some(CapabilityNeed::Feature(VulkanShaderFeature::ShaderBfloat16Type))
    } else if capability == 5118 {
        Some(CapabilityNeed::Feature(VulkanShaderFeature::ShaderBfloat16CooperativeMatrix))
    } else if capability == 5345 {
        Some(CapabilityNeed::Feature(VulkanShaderFeature::VulkanMemoryModel))
    } else if capability == 5347 {
        Some(CapabilityNeed::Feature(VulkanShaderFeature::BufferDeviceAddress))
    } else if capability == 6018 {
        Some(CapabilityNeed::Feature(VulkanShaderFeature::ShaderIntegerDotProduct))
    } else if capability == 6019 {
        Some(CapabilityNeed::Feature(VulkanShaderFeature::ShaderIntegerDotProduct))
    } else if capability == 6022 {
        Some(CapabilityNeed::Feature(VulkanShaderFeature::CooperativeMatrix))
    } else if capability == 6914 {
        Some(CapabilityNeed::Feature(VulkanShaderFeature::ShaderMixedFloatDotProductBfloat16Acc))
    } else if capability == 6915 {
        Some(
            CapabilityNeed::Feature(
                VulkanShaderFeature::ShaderMixedFloatDotProductFloat8AccFloat32,
            ),
        )
    } else if capability == 61 {
        Some(CapabilityNeed::Operation(VulkanSubgroupOperation::Basic))
    } else if capability == 63 {
        Some(CapabilityNeed::Operation(VulkanSubgroupOperation::Arithmetic))
    } else if capability == 66 {
        Some(CapabilityNeed::Operation(VulkanSubgroupOperation::ShuffleRelative))
    } else {
        None
    }
}

fn need_of(capability: u32) -> (need: Option<CapabilityNeed>)
    ensures
        need == capability_need(capability),
{
    if capability == 1 {
        Some(CapabilityNeed::Nothing)
    } else if capability == 9 {
        Some(CapabilityNeed::Feature(VulkanShaderFeature::ShaderFloat16))
    } else if capability == 11 {
        Some(CapabilityNeed::Feature(VulkanShaderFeature::ShaderInt64))
    } else if capability == 22 {
        Some(CapabilityNeed::Feature(VulkanShaderFeature::ShaderInt16))
    } else if capability == 39 {
        Some(CapabilityNeed::Feature(VulkanShaderFeature::ShaderInt8))
    } else if capability == 4433 {
        Some(CapabilityNeed::Feature(VulkanShaderFeature::StorageBuffer16BitAccess))
    } else if capability == 4448 {
        Some(CapabilityNeed::Feature(VulkanShaderFeature::StorageBuffer8BitAccess))
    } else if capability == 4212 {
        Some(CapabilityNeed::Feature(VulkanShaderFeature::ShaderFloat8))
    } else if capability == 4213 {
        Some(CapabilityNeed::Feature(VulkanShaderFeature::ShaderFloat8CooperativeMatrix))
    } else if capability == 5116 {
        Some(CapabilityNeed::Feature(VulkanShaderFeature::ShaderBfloat16Type))
    } else if capability == 5118 {
        Some(CapabilityNeed::Feature(VulkanShaderFeature::ShaderBfloat16CooperativeMatrix))
    } else if capability == 5345 {
        Some(CapabilityNeed::Feature(VulkanShaderFeature::VulkanMemoryModel))
    } else if capability == 5347 {
        Some(CapabilityNeed::Feature(VulkanShaderFeature::BufferDeviceAddress))
    } else if capability == 6018 {
        Some(CapabilityNeed::Feature(VulkanShaderFeature::ShaderIntegerDotProduct))
    } else if capability == 6019 {
        Some(CapabilityNeed::Feature(VulkanShaderFeature::ShaderIntegerDotProduct))
    } else if capability == 6022 {
        Some(CapabilityNeed::Feature(VulkanShaderFeature::CooperativeMatrix))
    } else if capability == 6914 {
        Some(CapabilityNeed::Feature(VulkanShaderFeature::ShaderMixedFloatDotProductBfloat16Acc))
    } else if capability == 6915 {
        Some(
            CapabilityNeed::Feature(
                VulkanShaderFeature::ShaderMixedFloatDotProductFloat8AccFloat32,
            ),
        )
    } else if capability == 61 {
        Some(CapabilityNeed::Operation(VulkanSubgroupOperation::Basic))
    } else if capability == 63 {
        Some(CapabilityNeed::Operation(VulkanSubgroupOperation::Arithmetic))
    } else if capability == 66 {
        Some(CapabilityNeed::Operation(VulkanSubgroupOperation::ShuffleRelative))
    } else {
        None
    }
}

/// What the instructions of a module have declared so far.
pub struct DeclarationsModel {
    pub requirements: VulkanSpirvRequirementsModel,
    pub memory_model: Option<u32>,
}

/// The number of words of an instruction.
pub open spec fn word_count(word: u32) -> nat {
    (word as nat) / 65536
}

/// The number of an instruction.
pub open spec fn opcode(word: u32) -> nat {
    (word as nat) % 65536
}

/// The declarations with those of a capability, or the text of the error.
pub open spec fn with_capability(found: DeclarationsModel, capability: u32) -> Result<
    DeclarationsModel,
    Seq<char>,
> {
    let needs = found.requirements;
    match capability_need(capability) {
        None => Err(
            "shader artifact declares SPIR-V capability "@ + decimal_text(capability as nat)
                + ", but the runtime has no device contract for it"@,
        ),
        Some(CapabilityNeed::Nothing) => Ok(found),
        Some(CapabilityNeed::Feature(feature)) => Ok(
            DeclarationsModel {
                requirements: VulkanSpirvRequirementsModel {
                    shader_features: needs.shader_features.insert(feature),
                    ..needs
                },
                ..found
            },
        ),
        Some(CapabilityNeed::Operation(operation)) => Ok(
            DeclarationsModel {
                requirements: VulkanSpirvRequirementsModel {
                    subgroup_operations: needs.subgroup_operations.insert(operation),
                    ..needs
                },
                ..found
            },
        ),
    }
}

/// The declarations with those of the instruction at an index, or the text of the
/// error.
pub open spec fn with_instruction(found: DeclarationsModel, words: Seq<u32>, index: nat) -> Result<
    DeclarationsModel,
    Seq<char>,
> {
    let word = words[index as int];
    if opcode(word) == SPIRV_OP_CAPABILITY {
        if word_count(word) != 2 {
            Err("shader artifact has a malformed SPIR-V capability"@)
        } else {
            with_capability(found, words[index as int + 1])
        }
    } else if opcode(word) == SPIRV_OP_MEMORY_MODEL {
        if word_count(word) != 3 || found.memory_model is Some {
            Err("shader artifact has a malformed SPIR-V memory model"@)
        } else {
            Ok(DeclarationsModel { memory_model: Some(words[index as int + 2]), ..found })
        }
    } else {
        Ok(found)
    }
}

/// The declarations of the instructions from an index on, or the text of the error.
pub open spec fn declarations_from(words: Seq<u32>, index: nat, found: DeclarationsModel) -> Result<
    DeclarationsModel,
    Seq<char>,
>
    decreases words.len() - index,
{
    if index >= words.len() {
        Ok(found)
    } else {
        let count = word_count(words[index as int]);
        if count == 0 || index + count > words.len() {
            Err("shader artifact has a truncated SPIR-V instruction"@)
        } else {
            match with_instruction(found, words, index) {
                Err(message) => Err(message),
                Ok(next) => declarations_from(words, index + count, next),
            }
        }
    }
}

/// Nothing is declared.
pub open spec fn no_declarations() -> DeclarationsModel {
    DeclarationsModel {
        requirements: VulkanSpirvRequirementsModel {
            shader_features: Set::empty(),
            subgroup_operations: Set::empty(),
        },
        memory_model: None,
    }
}

/// What a module needs of a device, or the text of the error.
pub open spec fn spirv_requirements(words: Seq<u32>) -> Result<
    VulkanSpirvRequirementsModel,
    Seq<char>,
> {
    if words.len() < SPIRV_HEADER_WORDS || words[0] != SPIRV_MAGIC {
        Err("shader artifact is not a SPIR-V module"@)
    } else {
        match declarations_from(words, SPIRV_HEADER_WORDS as nat, no_declarations()) {
            Err(message) => Err(message),
            Ok(found) => if (found.memory_model == Some(SPIRV_VULKAN_MEMORY_MODEL))
                != found.requirements.shader_features.contains(
                VulkanShaderFeature::VulkanMemoryModel,
            ) {
                Err("shader artifact declares an inconsistent SPIR-V memory model"@)
            } else {
                Ok(found.requirements)
            },
        }
    }
}

/// What the instructions of a module have declared.
struct Declarations {
    requirements: VulkanSpirvRequirements,
    memory_model: Option<u32>,
}

impl Declarations {
    spec fn model(self) -> DeclarationsModel {
        DeclarationsModel {
            requirements: self.requirements.deep_view(),
            memory_model: self.memory_model,
        }
    }
}

fn add_capability(found: &mut Declarations, capability: u32) -> (outcome: Result<(), VulkanError>)
    ensures
        match outcome {
            Ok(_) => with_capability(old(found).model(), capability) == Ok::<
                DeclarationsModel,
                Seq<char>,
            >(final(found).model()),
            Err(error) => with_capability(old(found).model(), capability) == Err::<
                DeclarationsModel,
                Seq<char>,
            >(error.0@),
        },
{
    match need_of(capability) {
        None => Err(
            VulkanError(
                join3(
                    "shader artifact declares SPIR-V capability ",
                    decimal_u64(capability as u64).as_str(),
                    ", but the runtime has no device contract for it",
                ),
            ),
        ),
        Some(need) => {
            match need {
                CapabilityNeed::Nothing => {},
                CapabilityNeed::Feature(feature) => {
                    found.requirements.shader_features.insert(feature);
                },
                CapabilityNeed::Operation(operation) => {
                    found.requirements.subgroup_operations.insert(operation);
                },
            }
            Ok(())
        },
    }
}

fn add_instruction(found: &mut Declarations, words: &[u32], index: usize) -> (outcome: Result<
    (),
    VulkanError,
>)
    requires
        index < words@.len(),
        index + word_count(words@[index as int]) <= words@.len(),
    ensures
        match outcome {
            Ok(_) => with_instruction(old(found).model(), words@, index as nat) == Ok::<
                DeclarationsModel,
                Seq<char>,
            >(final(found).model()),
            Err(error) => with_instruction(old(found).model(), words@, index as nat) == Err::<
                DeclarationsModel,
                Seq<char>,
            >(error.0@),
        },
{
    let word: u32 = words[index];
    let count: u32 = word / 65536;
    let number: u32 = word % 65536;
    if number == SPIRV_OP_CAPABILITY as u32 {
        if count != 2 {
            return Err(
                VulkanError("shader artifact has a malformed SPIR-V capability".to_owned()),
            );
        }
        add_capability(found, words[index + 1])
    } else if number == SPIRV_OP_MEMORY_MODEL as u32 {
        if count != 3 || found.memory_model.is_some() {
            return Err(
                VulkanError("shader artifact has a malformed SPIR-V memory model".to_owned()),
            );
        }
        found.memory_model = Some(words[index + 2]);
        Ok(())
    } else {
        Ok(())
    }
}

/// Finds what a module needs of a device. A capability that is not known, an
/// instruction that is cut off and a memory model that does not fit are refused.
pub fn vulkan_spirv_requirements(words: &[u32]) -> (outcome: Result<
    VulkanSpirvRequirements,
    VulkanError,
>)
    ensures
        match outcome {
            Ok(requirements) => spirv_requirements(words@) == Ok::<
                VulkanSpirvRequirementsModel,
                Seq<char>,
            >(requirements.deep_view()),
            Err(error) => spirv_requirements(words@) == Err::<
                VulkanSpirvRequirementsModel,
                Seq<char>,
            >(error.0@),
        },
{
    if words.len() < SPIRV_HEADER_WORDS || words[0] != SPIRV_MAGIC {
        return Err(VulkanError("shader artifact is not a SPIR-V module".to_owned()));
    }
    let mut found = Declarations {
        requirements: VulkanSpirvRequirements {
            shader_features: OrderedSet::new(),
            subgroup_operations: OrderedSet::new(),
        },
        memory_model: None,
    };
    let ghost expected = declarations_from(
        words@,
        SPIRV_HEADER_WORDS as nat,
        no_declarations(),
    );
    let mut index: usize = SPIRV_HEADER_WORDS;
    while index < words.len()
        invariant
            index <= words@.len(),
            words@.len() >= SPIRV_HEADER_WORDS,
            words@[0] == SPIRV_MAGIC,
            expected == declarations_from(
                words@,
                SPIRV_HEADER_WORDS as nat,
                no_declarations(),
            ),
            expected == declarations_from(words@, index as nat, found.model()),
        decreases words@.len() - index,
    {
        let count: usize = (words[index] / 65536) as usize;
        if count == 0 || count > words.len() - index {
            return Err(
                VulkanError("shader artifact has a truncated SPIR-V instruction".to_owned()),
            );
        }
        match add_instruction(&mut found, words, index) {
            Err(error) => {
                return Err(error);
            },
            Ok(_) => {},
        }
        index += count;
    }
    let is_vulkan: bool = match found.memory_model {
        Some(model) => model == SPIRV_VULKAN_MEMORY_MODEL,
        None => false,
    };
    if is_vulkan != found.requirements.shader_features.contains(
        &VulkanShaderFeature::VulkanMemoryModel,
    ) {
        return Err(
            VulkanError("shader artifact declares an inconsistent SPIR-V memory model".to_owned()),
        );
    }
    Ok(found.requirements)
}

/// An instruction starts at an index when those from another index on are read.
pub open spec fn starts_at(words: Seq<u32>, index: nat, start: nat) -> bool
    decreases words.len() - index,
{
    if index >= words.len() {
        false
    } else {
        let next = index + word_count(words[index as int]);
        index == start || (index < next <= words.len() && starts_at(words, next, start))
    }
}

/// The requirements hold what a capability needs.
pub open spec fn provides_for(needs: VulkanSpirvRequirementsModel, capability: u32) -> bool {
    match capability_need(capability) {
        None => false,
        Some(CapabilityNeed::Nothing) => true,
        Some(CapabilityNeed::Feature(feature)) => needs.shader_features.contains(feature),
        Some(CapabilityNeed::Operation(operation)) => needs.subgroup_operations.contains(operation),
    }
}

proof fn lemma_declared(words: Seq<u32>, index: nat, found: DeclarationsModel, start: nat)
    requires
        declarations_from(words, index, found) is Ok,
    ensures
        found.requirements.shader_features.subset_of(
            declarations_from(words, index, found)->Ok_0.requirements.shader_features,
        ),
        found.requirements.subgroup_operations.subset_of(
            declarations_from(words, index, found)->Ok_0.requirements.subgroup_operations,
        ),
        starts_at(words, index, start) && opcode(words[start as int]) == SPIRV_OP_CAPABILITY
            ==> provides_for(
            declarations_from(words, index, found)->Ok_0.requirements,
            words[start as int + 1],
        ),
    decreases words.len() - index,
{
    if index < words.len() {
        let count = word_count(words[index as int]);
        let next = with_instruction(found, words, index)->Ok_0;
        lemma_declared(words, index + count, next, start);
    }
}

/// A module that is accepted needs at least what every capability needs that one of its
/// instructions declares.
pub proof fn law_declared_capabilities_are_required(words: Seq<u32>, start: nat)
    requires
        spirv_requirements(words) is Ok,
        starts_at(words, SPIRV_HEADER_WORDS as nat, start),
        opcode(words[start as int]) == SPIRV_OP_CAPABILITY,
    ensures
        provides_for(spirv_requirements(words)->Ok_0, words[start as int + 1]),
{
    lemma_declared(words, SPIRV_HEADER_WORDS as nat, no_declarations(), start);
}

} // verus!
