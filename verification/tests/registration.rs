use initialization::built_in::age_plugin;
use initialization::Constructor;
use initialization::Context;
use initialization::Initializer;
use initialization::Plugin;

fn weight_plugin() -> Plugin {
    Plugin {
        name: "Weight",
        description: "Weight of the person in lbs",
        required: true,
        enabled: true,
        initializer: Initializer { default_value: 140 },
        constructor: Constructor::RegisterSelf,
    }
}

#[test]
fn it_works() {
    let registry = vec![age_plugin()];
    let context = Context::new(&registry);
    for plugin in context.plugins.iter() {
        println!("Plugin: {}", plugin);
    }
}

#[test]
fn lib_it_works() {
    let registry = vec![age_plugin(), weight_plugin()];
    let context = Context::new(&registry);
    for plugin in context.plugins.iter() {
        println!("Plugin: {}", plugin);
    }
}

#[test]
fn one_entry_per_registering_descriptor() {
    let registry = vec![age_plugin(), weight_plugin()];
    let context = Context::new(&registry);
    assert_eq!(context.plugins.len(), 2);
}

#[test]
fn recorded_names_equal_declared_names() {
    let registry = vec![age_plugin(), weight_plugin()];
    let context = Context::new(&registry);
    assert!(context.plugins.contains(&"Age"));
    assert!(context.plugins.contains(&"Weight"));
    assert_eq!(context.plugins.len(), 2);
}

#[test]
fn rebuilding_records_the_same_names() {
    let registry = vec![weight_plugin(), age_plugin()];
    let first = Context::new(&registry);
    let second = Context::new(&registry);
    let mut first_names = first.plugins.clone();
    let mut second_names = second.plugins.clone();
    first_names.sort();
    second_names.sort();
    assert_eq!(first_names, second_names);
}

#[test]
fn silent_constructor_leaves_no_entry() {
    let silent = Plugin {
        name: "Height",
        description: "Height of the person in inches",
        required: false,
        enabled: true,
        initializer: Initializer { default_value: 64 },
        constructor: Constructor::Silent,
    };
    let registry = vec![age_plugin(), silent, weight_plugin()];
    let context = Context::new(&registry);
    assert!(context.plugins.len() < registry.len());
    assert_eq!(context.plugins, vec!["Age", "Weight"]);
}

#[test]
fn two_registering_descriptors_record_both_names() {
    let registry = vec![age_plugin(), weight_plugin()];
    let context = Context::new(&registry);
    assert_eq!(context.plugins.len(), 2);
    assert!(context.plugins.contains(&"Age"));
    assert!(context.plugins.contains(&"Weight"));
}

#[test]
fn empty_registry_yields_empty_context() {
    let registry: Vec<Plugin> = Vec::new();
    let context = Context::new(&registry);
    assert!(context.plugins.is_empty());
}

#[test]
fn duplicate_names_are_both_recorded() {
    let registry = vec![age_plugin(), age_plugin()];
    let context = Context::new(&registry);
    assert_eq!(context.plugins, vec!["Age", "Age"]);
}

#[test]
fn register_plugin_appends_one_name_per_call() {
    let mut context = Context::default();
    let age = age_plugin();
    context.register_plugin(&age);
    assert_eq!(context.plugins, vec!["Age"]);
    context.register_plugin(&age);
    assert_eq!(context.plugins, vec!["Age", "Age"]);
}

#[test]
fn age_descriptor_metadata() {
    let age = age_plugin();
    assert_eq!(age.name, "Age");
    assert_eq!(age.description, "Age of the person");
    assert!(age.required);
    assert!(age.enabled);
}

#[test]
fn initializer_computes_the_default_value() {
    let context = Context::default();
    let age = age_plugin();
    assert_eq!(age.initializer.initial_value(&context, 0), 42);
    assert_eq!(age.initializer.initial_value(&context, 7), 42);
    let weight = weight_plugin();
    assert_eq!(weight.initializer.initial_value(&context, 0), 140);
}

#[test]
fn default_context_records_nothing() {
    let context = Context::default();
    assert!(context.plugins.is_empty());
}
