//! Errors of planning and of mounting plans.
use vstd::prelude::*;

verus! {

/// Why a distributed plan cannot be made.
#[derive(Debug, PartialEq, Eq)]
pub struct VulkanDistributedPlanError(pub String);

impl Clone for VulkanDistributedPlanError {
    fn clone(&self) -> (copy: Self)
        ensures
            copy.0@ == self.0@,
    {
        VulkanDistributedPlanError(self.0.clone())
    }
}

impl VulkanDistributedPlanError {
    /// The text of the error.
    pub fn message(&self) -> (text: String)
        ensures
            text@ == self.0@,
    {
        self.0.clone()
    }
}

/// Why parameters cannot be made resident.
#[derive(Debug, PartialEq, Eq)]
pub struct VulkanDistributedParameterBufferError(pub String);

impl Clone for VulkanDistributedParameterBufferError {
    fn clone(&self) -> (copy: Self)
        ensures
            copy.0@ == self.0@,
    {
        VulkanDistributedParameterBufferError(self.0.clone())
    }
}

impl VulkanDistributedParameterBufferError {
    /// The text of the error.
    pub fn message(&self) -> (text: String)
        ensures
            text@ == self.0@,
    {
        self.0.clone()
    }
}

/// Why parameters cannot be loaded.
#[derive(Debug, PartialEq, Eq)]
pub struct VulkanDistributedParameterLoadError(pub String);

impl Clone for VulkanDistributedParameterLoadError {
    fn clone(&self) -> (copy: Self)
        ensures
            copy.0@ == self.0@,
    {
        VulkanDistributedParameterLoadError(self.0.clone())
    }
}

impl VulkanDistributedParameterLoadError {
    /// The text of the error.
    pub fn message(&self) -> (text: String)
        ensures
            text@ == self.0@,
    {
        self.0.clone()
    }
}

/// Why activations cannot be made resident.
#[derive(Debug, PartialEq, Eq)]
pub struct VulkanDistributedActivationBufferError(pub String);

impl Clone for VulkanDistributedActivationBufferError {
    fn clone(&self) -> (copy: Self)
        ensures
            copy.0@ == self.0@,
    {
        VulkanDistributedActivationBufferError(self.0.clone())
    }
}

impl VulkanDistributedActivationBufferError {
    /// The text of the error.
    pub fn message(&self) -> (text: String)
        ensures
            text@ == self.0@,
    {
        self.0.clone()
    }
}

/// Why a distributed dispatch cannot run.
#[derive(Debug, PartialEq, Eq)]
pub struct VulkanDistributedDispatchRunnerError(pub String);

impl Clone for VulkanDistributedDispatchRunnerError {
    fn clone(&self) -> (copy: Self)
        ensures
            copy.0@ == self.0@,
    {
        VulkanDistributedDispatchRunnerError(self.0.clone())
    }
}

impl VulkanDistributedDispatchRunnerError {
    /// The text of the error.
    pub fn message(&self) -> (text: String)
        ensures
            text@ == self.0@,
    {
        self.0.clone()
    }
}

/// Why a device or a shader was refused.
#[derive(Debug, PartialEq, Eq)]
pub struct VulkanError(pub String);

impl Clone for VulkanError {
    fn clone(&self) -> (copy: Self)
        ensures
            copy.0@ == self.0@,
    {
        VulkanError(self.0.clone())
    }
}

impl VulkanError {
    /// The text of the error.
    pub fn message(&self) -> (text: String)
        ensures
            text@ == self.0@,
    {
        self.0.clone()
    }
}

/// The outcome is the expected one: the expected value, or the expected text as
/// the error.
pub open spec fn plan_agrees<T: DeepView>(
    outcome: Result<T, VulkanDistributedPlanError>,
    expected: Result<T::V, Seq<char>>,
) -> bool {
    match outcome {
        Ok(value) => expected is Ok && expected->Ok_0 == value.deep_view(),
        Err(error) => expected is Err && expected->Err_0 == error.0@,
    }
}

impl From<VulkanError> for VulkanDistributedParameterBufferError {
    fn from(error: VulkanError) -> (converted: Self) {
        VulkanDistributedParameterBufferError(error.0)
    }
}

impl vstd::std_specs::convert::FromSpecImpl<VulkanError> for VulkanDistributedParameterBufferError {
    open spec fn obeys_from_spec() -> bool {
        true
    }

    open spec fn from_spec(error: VulkanError) -> Self {
        VulkanDistributedParameterBufferError(error.0)
    }
}

impl From<VulkanError> for VulkanDistributedDispatchRunnerError {
    fn from(error: VulkanError) -> (converted: Self) {
        VulkanDistributedDispatchRunnerError(error.0)
    }
}

impl vstd::std_specs::convert::FromSpecImpl<VulkanError> for VulkanDistributedDispatchRunnerError {
    open spec fn obeys_from_spec() -> bool {
        true
    }

    open spec fn from_spec(error: VulkanError) -> Self {
        VulkanDistributedDispatchRunnerError(error.0)
    }
}

} // verus!
