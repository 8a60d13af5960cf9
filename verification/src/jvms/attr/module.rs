//! The tables of the Module attribute (JVMS 4.7.25).

use vstd::prelude::*;

verus! {

// {   u2 requires_index; // CONSTANT_Module_info
//     u2 requires_flags;
//     u2 requires_version_index; // CONSTANT_Utf8_info }
#[derive(Clone, Copy, Debug, PartialEq, Eq)]
pub struct ModuleRequires {
    pub requires_index: u16,
    pub requires_flags: u16,
    pub requires_version_index: u16,
}

// {   u2 exports_index; // CONSTANT_Package_info
//     u2 exports_flags;
//     u2 exports_to_count;
//     u2 exports_to_index[exports_to_count]; // CONSTANT_Module_info }
#[derive(Clone, Debug, PartialEq, Eq)]
pub struct ModuleExports {
    pub exports_index: u16,
    pub exports_flags: u16,
    pub exports_to_count: u16,
    pub exports_to_index: Vec<u16>,
}

pub struct SpecModuleExports {
    pub exports_index: u16,
    pub exports_flags: u16,
    pub exports_to_count: u16,
    pub exports_to_index: Seq<u16>,
}

impl DeepView for ModuleExports {
    type V = SpecModuleExports;

    open spec fn deep_view(&self) -> SpecModuleExports {
        SpecModuleExports {
            exports_index: self.exports_index,
            exports_flags: self.exports_flags,
            exports_to_count: self.exports_to_count,
            exports_to_index: self.exports_to_index.deep_view(),
        }
    }
}

// {   u2 opens_index; u2 opens_flags; u2 opens_to_count; u2 opens_to_index[opens_to_count]; }
#[derive(Clone, Debug, PartialEq, Eq)]
pub struct ModuleOpens {
    pub opens_index: u16,
    pub opens_flags: u16,
    pub opens_to_count: u16,
    pub opens_to_index: Vec<u16>,
}

pub struct SpecModuleOpens {
    pub opens_index: u16,
    pub opens_flags: u16,
    pub opens_to_count: u16,
    pub opens_to_index: Seq<u16>,
}

impl DeepView for ModuleOpens {
    type V = SpecModuleOpens;

    open spec fn deep_view(&self) -> SpecModuleOpens {
        SpecModuleOpens {
            opens_index: self.opens_index,
            opens_flags: self.opens_flags,
            opens_to_count: self.opens_to_count,
            opens_to_index: self.opens_to_index.deep_view(),
        }
    }
}

// {   u2 provides_index; u2 provides_with_count; u2 provides_with_index[provides_with_count]; }
#[derive(Clone, Debug, PartialEq, Eq)]
pub struct ModuleProvides {
    pub provides_index: u16,
    pub provides_with_count: u16,
    pub provides_with_index: Vec<u16>,
}

pub struct SpecModuleProvides {
    pub provides_index: u16,
    pub provides_with_count: u16,
    pub provides_with_index: Seq<u16>,
}

impl DeepView for ModuleProvides {
    type V = SpecModuleProvides;

    open spec fn deep_view(&self) -> SpecModuleProvides {
        SpecModuleProvides {
            provides_index: self.provides_index,
            provides_with_count: self.provides_with_count,
            provides_with_index: self.provides_with_index.deep_view(),
        }
    }
}

} // verus!
