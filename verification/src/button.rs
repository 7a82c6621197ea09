//! The look of a button: which style classes its variant and its size stand
//! for, and when it is shown disabled. Rendering is left to the page.

use crate::text::same_text;
use vstd::prelude::*;
use vstd::string::StringExecFns;

verus! {

/// The classes every button has.
pub const BASE_CLASS: &'static str =
    "inline-flex items-center justify-center whitespace-nowrap rounded-md text-sm font-medium ring-offset-background transition-colors focus-visible:ring-2 focus-visible:ring-ring focus-visible:ring-offset-2 disabled:pointer-events-none disabled:opacity-50";

/// What a page says about a button.
#[derive(Clone, Copy, Debug)]
pub struct ButtonProps<'a> {
    pub variant: &'a str,
    pub size: &'a str,
    pub loading: bool,
    pub disabled: bool,
    pub button_type: &'a str,
}

/// The classes of a variant. A variant without classes of its own looks like
/// `default`.
pub open spec fn variant_class_of(variant: Seq<char>) -> Seq<char> {
    if variant == "destructive"@ {
        "bg-destructive text-destructive-foreground hover:bg-destructive/90"@
    } else if variant == "outline"@ {
        "border border-input bg-background hover:bg-accent hover:text-accent-foreground"@
    } else if variant == "secondary"@ {
        "bg-secondary text-secondary-foreground hover:bg-secondary/80"@
    } else if variant == "ghost"@ {
        "hover:bg-accent hover:text-accent-foreground"@
    } else if variant == "link"@ {
        "text-primary underline-offset-4 hover:underline"@
    } else {
        "bg-primary text-primary-foreground hover:bg-primary/90"@
    }
}

/// The classes of a size. A size without classes of its own is the regular
/// size.
pub open spec fn size_class_of(size: Seq<char>) -> Seq<char> {
    if size == "sm"@ {
        "h-9 rounded-md px-3"@
    } else if size == "lg"@ {
        "h-11 rounded-md px-8"@
    } else if size == "icon"@ {
        "h-10 w-10"@
    } else {
        "h-10 px-4 py-2"@
    }
}

/// The whole class attribute: the base classes, then those of the variant,
/// then those of the size, with one space between.
pub open spec fn class_of(variant: Seq<char>, size: Seq<char>) -> Seq<char> {
    BASE_CLASS@ + " "@ + variant_class_of(variant) + " "@ + size_class_of(size)
}

impl<'a> ButtonProps<'a> {
    /// The classes of this button's variant.
    pub fn variant_class(&self) -> (class: &'static str)
        ensures
            class@ == variant_class_of(self.variant@),
    {
        if same_text(self.variant, "destructive") {
            "bg-destructive text-destructive-foreground hover:bg-destructive/90"
        } else if same_text(self.variant, "outline") {
            "border border-input bg-background hover:bg-accent hover:text-accent-foreground"
        } else if same_text(self.variant, "secondary") {
            "bg-secondary text-secondary-foreground hover:bg-secondary/80"
        } else if same_text(self.variant, "ghost") {
            "hover:bg-accent hover:text-accent-foreground"
        } else if same_text(self.variant, "link") {
            "text-primary underline-offset-4 hover:underline"
        } else {
            "bg-primary text-primary-foreground hover:bg-primary/90"
        }
    }

    /// The classes of this button's size.
    pub fn size_class(&self) -> (class: &'static str)
        ensures
            class@ == size_class_of(self.size@),
    {
        if same_text(self.size, "sm") {
            "h-9 rounded-md px-3"
        } else if same_text(self.size, "lg") {
            "h-11 rounded-md px-8"
        } else if same_text(self.size, "icon") {
            "h-10 w-10"
        } else {
            "h-10 px-4 py-2"
        }
    }

    /// The class attribute of this button.
    pub fn class(&self) -> (class: String)
        ensures
            class@ == class_of(self.variant@, self.size@),
    {
        let mut class = String::from_str(BASE_CLASS);
        class.append(" ");
        class.append(self.variant_class());
        class.append(" ");
        class.append(self.size_class());
        class
    }

    /// Whether the button is shown disabled: it is while it loads, too.
    pub fn is_disabled(&self) -> (off: bool)
        ensures
            off == (self.disabled || self.loading),
    {
        self.disabled || self.loading
    }
}

impl Default for ButtonProps<'static> {
    /// A plain button: default variant and size, enabled, not loading.
    fn default() -> (props: Self)
        ensures
            props.variant@ == "default"@,
            props.size@ == "default"@,
            !props.loading,
            !props.disabled,
            props.button_type@ == "button"@,
    {
        ButtonProps {
            variant: "default",
            size: "default",
            loading: false,
            disabled: false,
            button_type: "button",
        }
    }
}

} // verus!
