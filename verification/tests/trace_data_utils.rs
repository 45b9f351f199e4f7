use cairo_annotations::ordered_map::OrderedMap;
use cairo_annotations::trace_data::{
    BuiltinCounter, DeprecatedSyscallSelector, ExecutionResources, SyscallCounter, SyscallUsage,
    VmExecutionResources,
};

fn builtins(entries: &[(&str, usize)]) -> BuiltinCounter {
    let mut counter = OrderedMap::new();
    for (name, count) in entries {
        counter.insert(name.to_string(), *count);
    }
    counter
}

fn syscalls(entries: &[(DeprecatedSyscallSelector, usize, usize)]) -> SyscallCounter {
    let mut counter = OrderedMap::new();
    for (selector, call_count, linear_factor) in entries {
        counter.insert(
            *selector,
            SyscallUsage {
                call_count: *call_count,
                linear_factor: *linear_factor,
            },
        );
    }
    counter
}

#[test]
fn trace_data_utils_test_vm_execution_resources_add() {
    let mut vm1 = VmExecutionResources {
        n_steps: 10,
        n_memory_holes: 5,
        builtin_instance_counter: OrderedMap::new(),
    };
    vm1.builtin_instance_counter
        .insert("builtin1".to_string(), 3);
    vm1.builtin_instance_counter
        .insert("builtin2".to_string(), 2);

    let mut vm2 = VmExecutionResources {
        n_steps: 20,
        n_memory_holes: 8,
        builtin_instance_counter: OrderedMap::new(),
    };
    vm2.builtin_instance_counter
        .insert("builtin2".to_string(), 4);
    vm2.builtin_instance_counter
        .insert("builtin3".to_string(), 1);

    vm1.add_assign(&vm2);

    assert_eq!(vm1.n_steps, 30);
    assert_eq!(vm1.n_memory_holes, 13);
    assert_eq!(
        vm1.builtin_instance_counter.get(&"builtin1".to_string()),
        Some(&3)
    );
    assert_eq!(
        vm1.builtin_instance_counter.get(&"builtin2".to_string()),
        Some(&6)
    );
    assert_eq!(
        vm1.builtin_instance_counter.get(&"builtin3".to_string()),
        Some(&1)
    );
}

#[test]
fn trace_data_utils_test_vm_execution_resources_sub() {
    let mut vm1 = VmExecutionResources {
        n_steps: 30,
        n_memory_holes: 15,
        builtin_instance_counter: OrderedMap::new(),
    };
    vm1.builtin_instance_counter
        .insert("builtin1".to_string(), 5);
    vm1.builtin_instance_counter
        .insert("builtin2".to_string(), 8);
    vm1.builtin_instance_counter
        .insert("builtin3".to_string(), 3);

    let mut vm2 = VmExecutionResources {
        n_steps: 10,
        n_memory_holes: 5,
        builtin_instance_counter: OrderedMap::new(),
    };
    vm2.builtin_instance_counter
        .insert("builtin1".to_string(), 2);
    vm2.builtin_instance_counter
        .insert("builtin2".to_string(), 8); // This will become 0 and should be removed
    vm2.builtin_instance_counter
        .insert("builtin4".to_string(), 1); // This key doesn't exist in vm1

    vm1.sub_assign(&vm2);

    assert_eq!(vm1.n_steps, 20);
    assert_eq!(vm1.n_memory_holes, 10);
    assert_eq!(
        vm1.builtin_instance_counter.get(&"builtin1".to_string()),
        Some(&3)
    );
    assert_eq!(
        vm1.builtin_instance_counter.get(&"builtin2".to_string()),
        None
    ); // Should be removed as it becomes 0
    assert_eq!(
        vm1.builtin_instance_counter.get(&"builtin3".to_string()),
        Some(&3)
    );
    assert_eq!(
        vm1.builtin_instance_counter.get(&"builtin4".to_string()),
        None
    ); // Doesn't exist in vm1
}

#[test]
fn trace_data_utils_test_execution_resources_add() {
    let vm1 = VmExecutionResources {
        n_steps: 10,
        n_memory_holes: 5,
        builtin_instance_counter: builtins(&[("builtin1", 3)]),
    };

    let vm2 = VmExecutionResources {
        n_steps: 20,
        n_memory_holes: 8,
        builtin_instance_counter: builtins(&[("builtin2", 4)]),
    };

    let syscall_counter1 = syscalls(&[(DeprecatedSyscallSelector::Deploy, 2, 3)]);
    let syscall_counter2 = syscalls(&[
        (DeprecatedSyscallSelector::Deploy, 1, 2),
        (DeprecatedSyscallSelector::EmitEvent, 3, 0),
    ]);

    let mut er1 = ExecutionResources {
        vm_resources: vm1,
        gas_consumed: Some(100),
        syscall_counter: Some(syscall_counter1),
    };

    let er2 = ExecutionResources {
        vm_resources: vm2,
        gas_consumed: Some(50),
        syscall_counter: Some(syscall_counter2),
    };

    er1.add_assign(&er2);

    assert_eq!(er1.vm_resources.n_steps, 30);
    assert_eq!(er1.vm_resources.n_memory_holes, 13);
    assert_eq!(er1.gas_consumed, Some(150));

    let syscall_counter = er1.syscall_counter.unwrap();
    let call_contract_usage = syscall_counter
        .get(&DeprecatedSyscallSelector::Deploy)
        .unwrap();
    assert_eq!(call_contract_usage.call_count, 3);
    assert_eq!(call_contract_usage.linear_factor, 5);

    let emit_event_usage = syscall_counter
        .get(&DeprecatedSyscallSelector::EmitEvent)
        .unwrap();
    assert_eq!(emit_event_usage.call_count, 3);
    assert_eq!(emit_event_usage.linear_factor, 0);
}

#[test]
fn trace_data_utils_test_execution_resources_sub() {
    let vm1 = VmExecutionResources {
        n_steps: 30,
        n_memory_holes: 15,
        builtin_instance_counter: builtins(&[("builtin1", 5)]),
    };

    let vm2 = VmExecutionResources {
        n_steps: 10,
        n_memory_holes: 5,
        builtin_instance_counter: builtins(&[("builtin1", 2)]),
    };

    let syscall_counter1 = syscalls(&[
        (DeprecatedSyscallSelector::Deploy, 5, 7),
        (DeprecatedSyscallSelector::EmitEvent, 3, 0),
    ]);
    let syscall_counter2 = syscalls(&[
        (DeprecatedSyscallSelector::Deploy, 2, 3),
        (DeprecatedSyscallSelector::EmitEvent, 3, 0), // This will become 0 and should be removed
    ]);

    let mut er1 = ExecutionResources {
        vm_resources: vm1,
        gas_consumed: Some(100),
        syscall_counter: Some(syscall_counter1),
    };

    let er2 = ExecutionResources {
        vm_resources: vm2,
        gas_consumed: Some(30),
        syscall_counter: Some(syscall_counter2),
    };

    er1.sub_assign(&er2);

    assert_eq!(er1.vm_resources.n_steps, 20);
    assert_eq!(er1.vm_resources.n_memory_holes, 10);
    assert_eq!(er1.gas_consumed, Some(70));

    let syscall_counter = er1.syscall_counter.unwrap();
    let call_contract_usage = syscall_counter
        .get(&DeprecatedSyscallSelector::Deploy)
        .unwrap();
    assert_eq!(call_contract_usage.call_count, 3);
    assert_eq!(call_contract_usage.linear_factor, 4);

    // EmitEvent should be removed as both values are 0
    assert!(!syscall_counter.contains_key(&DeprecatedSyscallSelector::EmitEvent));
}
