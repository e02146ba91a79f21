//! Policy configuration and validation: per-user defaults and hard caps,
//! and the checks a resource request must pass against them.  Reading and
//! deserializing the policy file is the embedding program's job; it hands
//! the parsed values here for validation and keeping.

use vstd::prelude::*;

use crate::mounts::bytes_of;
use crate::utils::{spec_parse_memory_size, parse_memory_size, MemParseError};

verus! {

use vstd::string::StringSliceAdditionalSpecFns;
use vstd::string::StringExecFns;

/// Resource specification for CPU and memory (memory as a size string such
/// as `8G`).
#[derive(Debug, Clone)]
pub struct ResourceSpec {
    pub cpu: u32,
    pub mem: String,
}

/// A policy: per-user defaults and the hard maximum.
#[derive(Debug, Clone)]
pub struct PolicyConfig {
    pub defaults: ResourceSpec,
    pub max: ResourceSpec,
}

/// Why a policy or a request was refused.
#[derive(Clone, Copy, PartialEq, Eq, Structural, Debug)]
pub enum PolicyError {
    /// No policy has been loaded yet.
    NotLoaded,
    /// A memory size string did not parse.
    InvalidMemory(MemParseError),
    /// A requested CPU count of zero.
    ZeroCpu,
    /// The request asks for more CPUs than the policy allows.
    CpuExceedsMax { requested: u32, max: u32 },
    /// The request asks for more memory than the policy allows.
    MemExceedsMax,
    /// The policy's default CPU count is zero.
    ZeroDefaultCpu,
    /// The policy's maximum CPU count is zero.
    ZeroMaxCpu,
    /// The policy's CPU maximum lies below its default.
    MaxCpuBelowDefault { max: u32, default_cpu: u32 },
    /// The policy's memory maximum lies below its default.
    MaxMemBelowDefault,
}

/// What validating a policy configuration yields, checked in order:
/// non-zero default CPU, parseable default memory, non-zero maximum CPU,
/// parseable maximum memory, and maxima at or above the defaults.
pub open spec fn spec_validate_config(c: PolicyConfig) -> Result<(), PolicyError> {
    if c.defaults.cpu == 0 {
        Result::Err(PolicyError::ZeroDefaultCpu)
    } else {
        match spec_parse_memory_size(bytes_of(c.defaults.mem@)) {
            Result::Err(e) => Result::Err(PolicyError::InvalidMemory(e)),
            Result::Ok(def_mem) => {
                if c.max.cpu == 0 {
                    Result::Err(PolicyError::ZeroMaxCpu)
                } else {
                    match spec_parse_memory_size(bytes_of(c.max.mem@)) {
                        Result::Err(e) => Result::Err(PolicyError::InvalidMemory(e)),
                        Result::Ok(max_mem) => {
                            if c.max.cpu < c.defaults.cpu {
                                Result::Err(
                                    PolicyError::MaxCpuBelowDefault {
                                        max: c.max.cpu,
                                        default_cpu: c.defaults.cpu,
                                    },
                                )
                            } else if max_mem < def_mem {
                                Result::Err(PolicyError::MaxMemBelowDefault)
                            } else {
                                Result::Ok(())
                            }
                        },
                    }
                }
            },
        }
    }
}

/// What validating a request against a loaded policy yields, checked in
/// order: requested and maximum memory must parse, the CPU count must be
/// non-zero and at most the maximum, and the memory at most the maximum.
pub open spec fn spec_validate_request(
    config: Option<PolicyConfig>,
    cpu: u32,
    mem: Seq<u8>,
) -> Result<(), PolicyError> {
    match config {
        Option::None => Result::Err(PolicyError::NotLoaded),
        Option::Some(c) => match spec_parse_memory_size(mem) {
            Result::Err(e) => Result::Err(PolicyError::InvalidMemory(e)),
            Result::Ok(mem_bytes) => match spec_parse_memory_size(bytes_of(c.max.mem@)) {
                Result::Err(e) => Result::Err(PolicyError::InvalidMemory(e)),
                Result::Ok(max_bytes) => {
                    if cpu == 0 {
                        Result::Err(PolicyError::ZeroCpu)
                    } else if cpu > c.max.cpu {
                        Result::Err(PolicyError::CpuExceedsMax { requested: cpu, max: c.max.cpu })
                    } else if mem_bytes > max_bytes {
                        Result::Err(PolicyError::MemExceedsMax)
                    } else {
                        Result::Ok(())
                    }
                },
            },
        },
    }
}

/// Keeps the currently loaded policy and where it came from.
pub struct PolicyManager {
    pub config: Option<PolicyConfig>,
    pub policy_path: String,
}

impl PolicyManager {
    /// A manager with nothing loaded yet.
    pub fn new(policy_path: &str) -> (r: PolicyManager)
        ensures
            r.config is None,
            r.policy_path@ == policy_path@,
    {
        PolicyManager { config: Option::None, policy_path: String::from_str(policy_path) }
    }

    /// Validates a parsed policy configuration.
    pub fn validate_config(config: &PolicyConfig) -> (r: Result<(), PolicyError>)
        ensures
            r == spec_validate_config(*config),
    {
        if config.defaults.cpu == 0 {
            return Result::Err(PolicyError::ZeroDefaultCpu);
        }
        let def_mem = match parse_memory_size(config.defaults.mem.as_str()) {
            Result::Err(e) => {
                return Result::Err(PolicyError::InvalidMemory(e));
            },
            Result::Ok(v) => v,
        };
        if config.max.cpu == 0 {
            return Result::Err(PolicyError::ZeroMaxCpu);
        }
        let max_mem = match parse_memory_size(config.max.mem.as_str()) {
            Result::Err(e) => {
                return Result::Err(PolicyError::InvalidMemory(e));
            },
            Result::Ok(v) => v,
        };
        if config.max.cpu < config.defaults.cpu {
            return Result::Err(
                PolicyError::MaxCpuBelowDefault { max: config.max.cpu, default_cpu: config.defaults.cpu },
            );
        }
        if max_mem < def_mem {
            return Result::Err(PolicyError::MaxMemBelowDefault);
        }
        Result::Ok(())
    }

    /// Validates and installs a parsed policy configuration; on a refused
    /// configuration the previously loaded one stays in force.
    pub fn load_config(&mut self, config: PolicyConfig) -> (r: Result<(), PolicyError>)
        ensures
            match r {
                Result::Ok(()) => {
                    &&& spec_validate_config(config) == Result::<(), PolicyError>::Ok(())
                    &&& final(self).config == Option::Some(config)
                },
                Result::Err(e) => {
                    &&& spec_validate_config(config) == Result::<(), PolicyError>::Err(e)
                    &&& final(self).config == old(self).config
                },
            },
            final(self).policy_path == old(self).policy_path,
    {
        match Self::validate_config(&config) {
            Result::Err(e) => Result::Err(e),
            Result::Ok(()) => {
                self.config = Option::Some(config);
                Result::Ok(())
            },
        }
    }

    /// Drops the loaded policy so a fresh one can be installed; the caller
    /// re-reads the policy source and calls [`Self::load_config`].
    pub fn clear(&mut self)
        ensures
            final(self).config is None,
            final(self).policy_path == old(self).policy_path,
    {
        self.config = Option::None;
    }

    /// The loaded configuration, if any.
    pub fn get_config(&self) -> (r: Option<&PolicyConfig>)
        ensures
            match self.config {
                Option::None => r is None,
                Option::Some(c) => match r {
                    Option::Some(rc) => *rc == c,
                    Option::None => false,
                },
            },
    {
        match &self.config {
            Option::None => Option::None,
            Option::Some(c) => Option::Some(c),
        }
    }

    /// The default resource specification of the loaded policy.
    pub fn get_defaults(&self) -> (r: Result<&ResourceSpec, PolicyError>)
        ensures
            match self.config {
                Option::None => r == Result::<&ResourceSpec, PolicyError>::Err(
                    PolicyError::NotLoaded,
                ),
                Option::Some(c) => match r {
                    Result::Ok(spec) => *spec == c.defaults,
                    Result::Err(_) => false,
                },
            },
    {
        match &self.config {
            Option::None => Result::Err(PolicyError::NotLoaded),
            Option::Some(c) => Result::Ok(&c.defaults),
        }
    }

    /// The maximum resource specification of the loaded policy.
    pub fn get_max(&self) -> (r: Result<&ResourceSpec, PolicyError>)
        ensures
            match self.config {
                Option::None => r == Result::<&ResourceSpec, PolicyError>::Err(
                    PolicyError::NotLoaded,
                ),
                Option::Some(c) => match r {
                    Result::Ok(spec) => *spec == c.max,
                    Result::Err(_) => false,
                },
            },
    {
        match &self.config {
            Option::None => Result::Err(PolicyError::NotLoaded),
            Option::Some(c) => Result::Ok(&c.max),
        }
    }

    /// Validates a resource request against the loaded policy's caps.
    pub fn validate_request(&self, cpu: u32, mem: &str) -> (r: Result<(), PolicyError>)
        ensures
            r == spec_validate_request(self.config, cpu, mem.spec_bytes()),
    {
        let config = match &self.config {
            Option::None => {
                return Result::Err(PolicyError::NotLoaded);
            },
            Option::Some(c) => c,
        };
        let mem_bytes = match parse_memory_size(mem) {
            Result::Err(e) => {
                return Result::Err(PolicyError::InvalidMemory(e));
            },
            Result::Ok(v) => v,
        };
        let max_bytes = match parse_memory_size(config.max.mem.as_str()) {
            Result::Err(e) => {
                return Result::Err(PolicyError::InvalidMemory(e));
            },
            Result::Ok(v) => v,
        };
        if cpu == 0 {
            return Result::Err(PolicyError::ZeroCpu);
        }
        if cpu > config.max.cpu {
            return Result::Err(PolicyError::CpuExceedsMax { requested: cpu, max: config.max.cpu });
        }
        if mem_bytes > max_bytes {
            return Result::Err(PolicyError::MemExceedsMax);
        }
        Result::Ok(())
    }
}

} // verus!
