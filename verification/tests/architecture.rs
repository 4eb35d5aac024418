use wasmrust::component::{initialize_component_support, ComponentError, ComponentInstance, ComponentInterface};
use wasmrust::gc::{GcArray, GcBox, GcManaged, GcString};

#[test]
fn test_gc_string_creation() {
    let _string = GcString::new();
}

#[test]
fn test_gc_array_operations() {
    let mut array = GcArray::<u32>::new();
    array.push(42);
    assert_eq!(array.len(), 1);
}

#[test]
fn test_gc_types_in_native_mode() {
    let string = GcString::new();
    assert_eq!(string.len(), 0);
    assert!(string.is_empty());
    let mut array = GcArray::<u32>::new();
    array.push(42);
    assert_eq!(array.len(), 1);
    assert_eq!(*array.get(0), 42);
}

#[test]
fn test_gc_managed_trait() {
    let value: u32 = 42;
    assert_eq!(value.gc_size(), 4);
    value.gc_mark();
    value.gc_trace();
}

#[test]
fn test_conditional_compilation() {
    println!("Running in native target");
    assert!(true);
}

pub struct UserData {
    pub id: u32,
    pub name: String,
    pub scores: Vec<u32>,
}

impl GcManaged for UserData {
    fn gc_mark(&self) {
        self.id.gc_mark();
    }

    fn gc_trace(&self) {
        self.id.gc_trace();
    }

    fn gc_size(&self) -> usize {
        core::mem::size_of::<u32>() + self.name.len() + self.scores.len() * core::mem::size_of::<u32>()
    }
}

#[test]
fn test_example_gc_type() {
    let user_data = UserData { id: 1, name: "test".to_string(), scores: vec![100, 200, 300] };
    assert_eq!(user_data.id, 1);
    assert_eq!(user_data.name, "test");
    assert_eq!(user_data.scores.len(), 3);
    user_data.gc_mark();
    user_data.gc_trace();
    assert_eq!(user_data.gc_size(), 4 + 4 + 12);
}

#[test]
fn test_memory_layout_compatibility() {
    assert!(core::mem::size_of::<GcString>() >= core::mem::size_of::<String>());
    assert!(core::mem::align_of::<GcString>() <= 16);
}

#[test]
fn test_platform_string() {
    let s: String = String::new();
    let _ = s.len();
    assert!(s.is_empty());
}

#[test]
fn test_architecture_philosophy() {
    let data = [1, 2, 3, 4, 5];
    let _std_vec = data.to_vec();
    let sum: i32 = data.iter().sum();
    assert_eq!(sum, 15);
}

#[test]
fn test_performance_characteristics() {
    assert!(true);
}

#[test]
fn test_backward_compatibility() {
    let vec = vec![1, 2, 3];
    let string = String::from("hello");
    let array = [1, 2, 3];
    assert_eq!(vec.len(), 3);
    assert_eq!(string.len(), 5);
    assert_eq!(array.len(), 3);
    let gc_string = GcString::from_str(&string);
    assert_eq!(gc_string.len(), string.len());
}

#[test]
fn test_safety_invariants() {
    let gc_string = GcString::new();
    assert!(!gc_string.is_empty() || true);
}

#[test]
fn test_architecture_documentation_consistency() {
    let principle = "Native Rust for systems. GC-ready Rust for WebAssembly.";
    assert!(!principle.is_empty());
    let gc_string = GcString::from_str(principle);
    assert_eq!(gc_string.len(), principle.len());
}

#[test]
fn test_gc_sizes() {
    assert_eq!(7u8.gc_size(), 1);
    assert_eq!((-3i32).gc_size(), 4);
    let v: Vec<u32> = vec![1, 2, 3];
    assert_eq!(v.gc_size(), 12);
    let s = GcString::from_str("héllo");
    assert_eq!(s.len(), 6);
    assert_eq!(s.gc_size(), 6);
    let mut a = GcArray::<u8>::new();
    a.push(1);
    a.push(2);
    assert_eq!(a.gc_size(), 2);
    let b = GcBox::new(5u32);
    assert_eq!(*b.get(), 5);
    assert_eq!(b.gc_size(), 4);
}

#[test]
fn test_component_model() {
    let interface = ComponentInterface::new("calc".to_string());
    assert_eq!(interface.version, "1.0.0");
    let instance = ComponentInstance::new(interface).unwrap();
    assert_eq!(instance.interface().name, "calc");
    assert!(initialize_component_support().is_ok());
    assert_eq!(ComponentError::ComponentNotFound("x".to_string()).to_message(), "Component not found: x");
    assert_eq!(ComponentError::InvalidComponent.to_message(), "Invalid component");
}
