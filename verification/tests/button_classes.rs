use socialverse::button::{ButtonProps, BASE_CLASS};

fn button<'a>(variant: &'a str, size: &'a str) -> ButtonProps<'a> {
    ButtonProps { variant, size, ..ButtonProps::default() }
}

#[test]
fn default_button() {
    let props = ButtonProps::default();
    assert_eq!(props.variant, "default");
    assert_eq!(props.size, "default");
    assert_eq!(props.button_type, "button");
    assert!(!props.loading);
    assert!(!props.disabled);
    assert!(!props.is_disabled());
    assert_eq!(
        props.class(),
        "inline-flex items-center justify-center whitespace-nowrap rounded-md text-sm font-medium ring-offset-background transition-colors focus-visible:ring-2 focus-visible:ring-ring focus-visible:ring-offset-2 disabled:pointer-events-none disabled:opacity-50 bg-primary text-primary-foreground hover:bg-primary/90 h-10 px-4 py-2"
    );
}

#[test]
fn classes_of_each_variant() {
    let expected = [
        ("default", "bg-primary text-primary-foreground hover:bg-primary/90"),
        ("destructive", "bg-destructive text-destructive-foreground hover:bg-destructive/90"),
        (
            "outline",
            "border border-input bg-background hover:bg-accent hover:text-accent-foreground",
        ),
        ("secondary", "bg-secondary text-secondary-foreground hover:bg-secondary/80"),
        ("ghost", "hover:bg-accent hover:text-accent-foreground"),
        ("link", "text-primary underline-offset-4 hover:underline"),
    ];
    for (variant, class) in expected {
        assert_eq!(button(variant, "default").variant_class(), class);
    }
}

#[test]
fn unknown_variant_looks_like_default() {
    for variant in ["", "Default", "outline ", "primary", "destructiv"] {
        assert_eq!(
            button(variant, "default").variant_class(),
            "bg-primary text-primary-foreground hover:bg-primary/90"
        );
    }
}

#[test]
fn classes_of_each_size() {
    assert_eq!(button("default", "sm").size_class(), "h-9 rounded-md px-3");
    assert_eq!(button("default", "lg").size_class(), "h-11 rounded-md px-8");
    assert_eq!(button("default", "icon").size_class(), "h-10 w-10");
    assert_eq!(button("default", "default").size_class(), "h-10 px-4 py-2");
    assert_eq!(button("default", "").size_class(), "h-10 px-4 py-2");
    assert_eq!(button("default", "xl").size_class(), "h-10 px-4 py-2");
}

#[test]
fn class_attribute_joins_base_variant_and_size() {
    let class = button("outline", "sm").class();
    assert_eq!(
        class,
        format!(
            "{} {} {}",
            BASE_CLASS,
            "border border-input bg-background hover:bg-accent hover:text-accent-foreground",
            "h-9 rounded-md px-3"
        )
    );
    assert!(class.starts_with("inline-flex items-center"));
    assert!(class.ends_with("disabled:opacity-50 border border-input bg-background hover:bg-accent hover:text-accent-foreground h-9 rounded-md px-3"));
}

#[test]
fn loading_button_is_disabled() {
    let mut props = ButtonProps::default();
    props.loading = true;
    assert!(props.is_disabled());
    props.loading = false;
    props.disabled = true;
    assert!(props.is_disabled());
    props.loading = true;
    assert!(props.is_disabled());
}
