//! Configuration of the virtual machine and of the compiler.
use vstd::prelude::*;

verus! {

/// Number of registers a frame gets unless told otherwise: `u8::MAX`.
pub const DEFAULT_REGISTER_NUM: u64 = 255;

/// Configuration of the processor.
#[derive(Clone, Debug)]
pub struct CPUConfig {
    default_register_num: u64,
}

impl CPUConfig {
    pub closed spec fn spec_default_register_num(&self) -> u64 {
        self.default_register_num
    }

    pub fn new(default_register_num: u64) -> (r: Self)
        ensures
            r.spec_default_register_num() == default_register_num,
    {
        CPUConfig { default_register_num }
    }

    pub fn default_register_num(&self) -> (r: u64)
        ensures
            r == self.spec_default_register_num(),
    {
        self.default_register_num
    }
}

impl Default for CPUConfig {
    fn default() -> (r: Self)
        ensures
            r.spec_default_register_num() == DEFAULT_REGISTER_NUM,
    {
        CPUConfig { default_register_num: DEFAULT_REGISTER_NUM }
    }
}

/// Configuration of the virtual machine. The lookup of assemblies on disk is
/// the host's to provide.
#[derive(Clone, Debug)]
pub struct VMConfig {
    default_cpu_config: CPUConfig,
    is_dynamic_checking_enabled: bool,
}

impl VMConfig {
    pub closed spec fn spec_default_cpu_config(&self) -> CPUConfig {
        self.default_cpu_config
    }

    pub closed spec fn spec_is_dynamic_checking_enabled(&self) -> bool {
        self.is_dynamic_checking_enabled
    }

    pub fn new(default_cpu_config: CPUConfig, is_dynamic_checking_enabled: bool) -> (r: Self)
        ensures
            r.spec_default_cpu_config() == default_cpu_config,
            r.spec_is_dynamic_checking_enabled() == is_dynamic_checking_enabled,
    {
        VMConfig { default_cpu_config, is_dynamic_checking_enabled }
    }

    pub fn default_cpu_config(&self) -> (r: &CPUConfig)
        ensures
            *r == self.spec_default_cpu_config(),
    {
        &self.default_cpu_config
    }

    pub fn is_dynamic_checking_enabled(&self) -> (r: bool)
        ensures
            r == self.spec_is_dynamic_checking_enabled(),
    {
        self.is_dynamic_checking_enabled
    }
}

/// Configuration of one compiler: where the standard library lives.
#[derive(Clone, Debug)]
pub struct CompilerConfig {
    stdlib_dir: String,
}

impl CompilerConfig {
    pub closed spec fn spec_stdlib_dir(&self) -> Seq<char> {
        self.stdlib_dir@
    }

    pub fn new(stdlib_dir: String) -> (r: Self)
        ensures
            r.spec_stdlib_dir() == stdlib_dir@,
    {
        CompilerConfig { stdlib_dir }
    }

    pub fn stdlib_dir(&self) -> (r: &String)
        ensures
            r@ == self.spec_stdlib_dir(),
    {
        &self.stdlib_dir
    }
}

/// Configuration of the compile service.
#[derive(Clone, Debug)]
pub struct CompileServiceConfig {
    default_compiler_config: CompilerConfig,
}

impl CompileServiceConfig {
    pub closed spec fn spec_default_compiler_config(&self) -> CompilerConfig {
        self.default_compiler_config
    }

    pub fn new(default_compiler_config: CompilerConfig) -> (r: Self)
        ensures
            r.spec_default_compiler_config().spec_stdlib_dir() == default_compiler_config.spec_stdlib_dir(),
    {
        CompileServiceConfig { default_compiler_config }
    }

    pub fn default_compiler_config(&self) -> (r: &CompilerConfig)
        ensures
            r.spec_stdlib_dir() == self.spec_default_compiler_config().spec_stdlib_dir(),
    {
        &self.default_compiler_config
    }
}

} // verus!
