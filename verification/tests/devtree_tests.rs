use firework::devtree::{initial_device_tree, is_subset};

fn props(p: &[(&str, &str)]) -> Vec<(String, String)> {
    p.iter().map(|(k, v)| (k.to_string(), v.to_string())).collect()
}

#[test]
fn the_tree_starts_with_root_and_product() {
    let mut t = initial_device_tree("Name");
    assert_eq!(t.entries.len(), 2);
    let root = &t.entries[0];
    assert_eq!((root.id, root.parent), (0, None));
    assert_eq!(root.properties, props(&[("Name", "Root"), ("Version", "0.0.1")]));
    assert_eq!(root.children, vec![1]);
    let product = &t.entries[1];
    assert_eq!((product.id, product.parent), (1, Some(0)));
    assert!(product.properties.is_empty());
    assert!(product.children.is_empty());
    assert_eq!(t.ids.next(), 2);
}

#[test]
fn personalities_match_by_subset() {
    let entry = props(&[("Name", "PCI"), ("VendorID", "8086"), ("DeviceID", "2415")]);
    assert!(is_subset(&props(&[("VendorID", "8086")]), &entry));
    assert!(is_subset(&props(&[("DeviceID", "2415"), ("VendorID", "8086")]), &entry));
    assert!(is_subset(&props(&[]), &entry));
    assert!(!is_subset(&props(&[("VendorID", "1234")]), &entry));
    assert!(!is_subset(&props(&[("Class", "4")]), &entry));
    let long = props(&[("A", "1"), ("B", "2"), ("C", "3"), ("D", "4")]);
    assert!(!is_subset(&long, &entry));
}

fn ext(identifier: &str, personalities: &[(&str, &[(&str, &str)])]) -> firework::devtree::Extension {
    firework::devtree::Extension {
        identifier: identifier.to_string(),
        personalities: personalities
            .iter()
            .map(|(name, m)| firework::devtree::Personality { name: name.to_string(), matching: props(m) })
            .collect(),
    }
}

#[test]
fn a_change_loads_the_first_unattached_matching_personality() {
    let entry = props(&[("Name", "PCI"), ("VendorID", "8086"), ("DeviceID", "2415")]);
    let exts = vec![
        ext("com.example.Audio", &[("AC97", &[("VendorID", "8086"), ("DeviceID", "2415")]), ("Any", &[])]),
        ext("com.example.Net", &[("E1000", &[("VendorID", "8086"), ("DeviceID", "100E")])]),
        ext("com.example.Bus", &[("Root", &[("Name", "PCI")])]),
    ];
    let none: Vec<(String, String)> = Vec::new();
    assert_eq!(firework::devtree::loads_on_change(&exts, &entry, &none), vec![(0, 0), (2, 0)]);
    let attached = vec![("com.example.Audio".to_string(), "AC97".to_string())];
    assert_eq!(firework::devtree::loads_on_change(&exts, &entry, &attached), vec![(0, 1), (2, 0)]);
}

#[test]
fn the_first_match_loads_every_matching_personality() {
    let entry = props(&[("Name", "PCI"), ("VendorID", "8086")]);
    let exts = vec![
        ext("com.example.Audio", &[("A", &[("VendorID", "8086")]), ("B", &[("VendorID", "1234")]), ("C", &[])]),
        ext("com.example.Bus", &[("Root", &[("Name", "PCI")])]),
    ];
    assert_eq!(firework::devtree::initial_matches(&exts, &entry), vec![(0, 0), (0, 2), (1, 0)]);
}
