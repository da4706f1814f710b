//! The configuration of a mixture-of-experts decoder.
use vstd::prelude::*;
use crate::config::Gemma4Config;
use crate::json::{json_get, json_read, member, number, number_at, read};

verus! {

pub struct Gemma4MoeConfig {
    pub base: Gemma4Config,
    pub num_experts: usize,
    pub top_k_experts: usize,
    pub moe_intermediate_size: usize,
}

/// Why a configuration does not describe a mixture of experts.
#[derive(Clone, Copy, Debug, PartialEq, Eq, Structural)]
pub enum MoeConfigError {
    /// The expert block is switched off.
    Disabled,
    NotJson,
    NumExperts,
    TopK,
    IntermediateSize,
    /// Each token goes to at least one expert and to no more than there are.
    TopKRange,
}

/// The numbers that describe the experts.
#[derive(Clone, Copy, Debug, PartialEq, Eq, Structural)]
pub struct ExpertFields {
    pub num_experts: Option<u64>,
    pub top_k_experts: Option<u64>,
    pub moe_intermediate_size: Option<u64>,
}

/// What is wrong with the numbers that describe the experts.
pub open spec fn expert_defect(f: ExpertFields) -> Option<MoeConfigError> {
    if f.num_experts is None {
        Some(MoeConfigError::NumExperts)
    } else if f.top_k_experts is None {
        Some(MoeConfigError::TopK)
    } else if f.moe_intermediate_size is None {
        Some(MoeConfigError::IntermediateSize)
    } else if f.top_k_experts->0 as usize == 0 || f.top_k_experts->0 as usize
        > f.num_experts->0 as usize {
        Some(MoeConfigError::TopKRange)
    } else {
        None
    }
}

/// The object that describes the text model: a member of its own, or the whole.
pub open spec fn text_part(v: serde_json::Value) -> serde_json::Value {
    match json_get(v, "text_config"@) {
        Some(t) => t,
        None => v,
    }
}

pub open spec fn fields_of(v: serde_json::Value) -> ExpertFields {
    let t = text_part(v);
    ExpertFields {
        num_experts: number_at(t, "num_experts"@),
        top_k_experts: number_at(t, "top_k_experts"@),
        moe_intermediate_size: number_at(t, "moe_intermediate_size"@),
    }
}

fn read_fields(v: &serde_json::Value) -> (r: ExpertFields)
    ensures
        r == fields_of(*v),
{
    let t = match member(v, "text_config") {
        Some(t) => t,
        None => v,
    };
    ExpertFields {
        num_experts: number(t, "num_experts"),
        top_k_experts: number(t, "top_k_experts"),
        moe_intermediate_size: number(t, "moe_intermediate_size"),
    }
}

impl Gemma4MoeConfig {
    /// The configuration holds these numbers next to its base.
    pub open spec fn of(self, base: Gemma4Config, f: ExpertFields) -> bool {
        &&& self.base == base
        &&& self.num_experts == f.num_experts->0 as usize
        &&& self.top_k_experts == f.top_k_experts->0 as usize
        &&& self.moe_intermediate_size == f.moe_intermediate_size->0 as usize
    }

    /// Adds the experts to a base configuration.
    pub fn with_experts(base: Gemma4Config, f: &ExpertFields) -> (r: Result<Self, MoeConfigError>)
        ensures
            match r {
                Ok(c) => expert_defect(*f) is None && c.of(base, *f),
                Err(e) => expert_defect(*f) == Some(e),
            },
    {
        let num_experts: usize = match f.num_experts {
            Some(n) => n as usize,
            None => {
                return Err(MoeConfigError::NumExperts);
            },
        };
        let top_k_experts: usize = match f.top_k_experts {
            Some(n) => n as usize,
            None => {
                return Err(MoeConfigError::TopK);
            },
        };
        let moe_intermediate_size: usize = match f.moe_intermediate_size {
            Some(n) => n as usize,
            None => {
                return Err(MoeConfigError::IntermediateSize);
            },
        };
        if top_k_experts == 0 || top_k_experts > num_experts {
            return Err(MoeConfigError::TopKRange);
        }
        Ok(Gemma4MoeConfig { base, num_experts, top_k_experts, moe_intermediate_size })
    }

    /// Reads the experts of a configuration file whose base was read already.
    pub fn from_hf_json_str(base: Gemma4Config, enable_moe_block: bool, text: &str) -> (r: Result<
        Self,
        MoeConfigError,
    >)
        ensures
            if !enable_moe_block {
                r == Err::<Self, MoeConfigError>(MoeConfigError::Disabled)
            } else if json_read(text@) is None {
                r == Err::<Self, MoeConfigError>(MoeConfigError::NotJson)
            } else {
                let f = fields_of(json_read(text@)->0);
                match r {
                    Ok(c) => expert_defect(f) is None && c.of(base, f),
                    Err(e) => expert_defect(f) == Some(e),
                }
            },
    {
        if !enable_moe_block {
            return Err(MoeConfigError::Disabled);
        }
        match read(text) {
            Err(_) => Err(MoeConfigError::NotJson),
            Ok(v) => {
                let f = read_fields(&v);
                Gemma4MoeConfig::with_experts(base, &f)
            },
        }
    }
}

} // verus!
