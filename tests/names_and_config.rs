use std::sync::Arc;
use string_refs::attrs::{ClassImplementationFlags, FieldImplementationFlags, MethodImplementationFlags, StructImplementationFlags, Visibility};
use string_refs::configs::{CPUConfig, CompileServiceConfig, CompilerConfig, VMConfig};
use string_refs::traits::IsEmpty;
use string_refs::StringName;

#[test]
fn names_compare_by_content() {
    let a = StringName::from_str("abc");
    let b = StringName::from_string("abc".to_string());
    let c = StringName::from_arc_string(Arc::new("abc".to_string()));
    assert!(a.equals(&b));
    assert_eq!(a, c);
    assert!(!a.equals(&StringName::from_static_str("abd")));
    assert_eq!(StringName::from_chars(&['x', 'y']).as_str(), "xy");
}

#[test]
fn name_queries() {
    let a = StringName::from_str("List");
    assert!(a.contains('s'));
    assert!(!a.contains('['));
    assert_eq!(a.concat("[T]").as_str(), "List[T]");
    assert_eq!(a.as_str(), "List");
    assert_eq!(StringName::from_str("é").to_vec(), vec![0xc3, 0xa9]);
    assert_eq!(a.clone_name(), a);
}

#[test]
fn visibility_bytes() {
    assert_eq!(Visibility::Public.to_u8(), 0);
    assert_eq!(Visibility::AssemblyOnly.to_u8(), 2);
    assert_eq!(Visibility::from_u8(1), Some(Visibility::Private));
    assert_eq!(Visibility::from_u8(3), None);
}

#[test]
fn flag_bits() {
    assert_eq!(MethodImplementationFlags::Static.bits(), 1);
    assert_eq!(MethodImplementationFlags::ImplementedByRuntime.bits(), 2);
    assert_eq!(FieldImplementationFlags::Static.bits(), 1);
    assert_eq!(StructImplementationFlags::Ref.bits(), 1);
    assert_eq!(ClassImplementationFlags::Static.bits(), 1);
}

#[test]
fn configs() {
    assert_eq!(CPUConfig::default().default_register_num(), 255);
    let vm = VMConfig::new(CPUConfig::new(16), true);
    assert_eq!(vm.default_cpu_config().default_register_num(), 16);
    assert!(vm.is_dynamic_checking_enabled());
    let svc = CompileServiceConfig::new(CompilerConfig::new("/lib".to_string()));
    assert_eq!(svc.default_compiler_config().stdlib_dir(), "/lib");
}

#[test]
fn is_empty_compares_with_default() {
    assert!(0u32.is_empty());
    assert!(!5u32.is_empty());
    assert!(String::new().is_empty());
}
