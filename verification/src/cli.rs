//! Headless provisioning from the command line.
//!
//! Launching the app a second time with these arguments re-provisions the instance that is
//! already running.
//!
//! ```text
//!     signage-desktop.exe --server 192.168.1.10:8080 --store 710 --name tv-entrada-01
//! ```
//!
//! Omitted flags mean "leave alone". There is no way to clear a field from here.

use vstd::prelude::*;
use vstd::string::*;

use crate::text;
use crate::text::{split_once, starts_with, text_eq, trim};

verus! {

/// What the command line provisions.
#[derive(Debug, PartialEq, Eq)]
pub struct Provisioning {
    pub server: Option<String>,
    pub store: Option<String>,
    pub name: Option<String>,
}

/// What a [`Provisioning`] stands for.
#[verifier::ext_equal]
pub struct ProvisioningView {
    pub server: Option<Seq<char>>,
    pub store: Option<Seq<char>>,
    pub name: Option<Seq<char>>,
}

impl View for Provisioning {
    type V = ProvisioningView;

    open spec fn view(&self) -> ProvisioningView {
        ProvisioningView {
            server: text::opt_text(self.server),
            store: text::opt_text(self.store),
            name: text::opt_text(self.name),
        }
    }
}

impl ProvisioningView {
    pub open spec fn empty() -> Self {
        ProvisioningView { server: None, store: None, name: None }
    }

    /// With the value that a flag has been given, unless it is blank.
    pub open spec fn with(self, flag: Seq<char>, value: Seq<char>) -> Self {
        let value = text::trimmed(value);
        if value.len() == 0 {
            self
        } else if flag == "--server"@ {
            ProvisioningView { server: Some(value), ..self }
        } else if flag == "--store"@ {
            ProvisioningView { store: Some(value), ..self }
        } else if flag == "--name"@ {
            ProvisioningView { name: Some(value), ..self }
        } else {
            self
        }
    }
}

impl Default for Provisioning {
    fn default() -> (empty: Self)
        ensures
            empty@ == ProvisioningView::empty(),
    {
        Provisioning { server: None, store: None, name: None }
    }
}

impl Provisioning {
    /// Whether nothing is provisioned.
    pub fn is_empty(&self) -> (empty: bool)
        ensures
            empty == (self@ == ProvisioningView::empty()),
    {
        self.server.is_none() && self.store.is_none() && self.name.is_none()
    }
}

/// The flags that take a value.
pub open spec fn is_flag(arg: Seq<char>) -> bool {
    arg == "--server"@ || arg == "--store"@ || arg == "--name"@
}

/// The part of an argument before its first equals sign.
pub open spec fn flag_of(arg: Seq<char>) -> Seq<char> {
    match text::split_first(arg, '=') {
        Some((flag, value)) => flag,
        None => arg,
    }
}

/// What the arguments make of a provisioning: `--flag value` and `--flag=value` set a value, the
/// last one counts, a flag takes no other flag for its value, and anything else is passed over.
pub open spec fn provisioned(args: Seq<Seq<char>>, out: ProvisioningView) -> ProvisioningView
    decreases args.len(),
{
    if args.len() == 0 {
        out
    } else {
        let flag = flag_of(args[0]);
        let rest = args.drop_first();
        match text::split_first(args[0], '=') {
            _ if !is_flag(flag) => provisioned(rest, out),
            Some((flag, value)) => provisioned(rest, out.with(flag, value)),
            None => if rest.len() > 0 && !"--"@.is_prefix_of(rest[0]) {
                provisioned(rest.drop_first(), out.with(flag, rest[0]))
            } else {
                provisioned(rest, out)
            },
        }
    }
}

/// The texts of a list of arguments.
pub open spec fn texts(args: Seq<&str>) -> Seq<Seq<char>> {
    args.map_values(|a: &str| a@)
}

/// Parses `--flag value` and `--flag=value`. Anything else is ignored: the binary is also
/// launched by the OS at logon with arguments we do not control.
pub fn parse(args: &[&str]) -> (out: Provisioning)
    ensures
        out@ == provisioned(texts(args@), ProvisioningView::empty()),
{
    let mut out = Provisioning::default();
    let ghost all = texts(args@);
    let mut i: usize = 0;
    proof {
        assert(all.skip(0) =~= all);
    }
    while i < args.len()
        invariant
            i <= args.len(),
            all == texts(args@),
            provisioned(all.skip(i as int), out@) == provisioned(all, ProvisioningView::empty()),
        decreases args.len() - i,
    {
        let arg: &str = args[i];
        let ghost here = all.skip(i as int);
        proof {
            assert(here[0] == arg@);
            assert(here.drop_first() =~= all.skip(i + 1));
        }
        i += 1;
        match split_once(arg, '=') {
            Some((flag, value)) => {
                if takes_value(flag) {
                    set(&mut out, flag, value);
                }
            },
            None => {
                if takes_value(arg) {
                    // Only consume the next argument if it is not itself a flag, so
                    // `--store --name x` does not silently set the store to "--name".
                    if i < args.len() && !starts_with(args[i], "--") {
                        proof {
                            assert(here.drop_first()[0] == args[i as int]@);
                            assert(here.drop_first().drop_first() =~= all.skip(i + 1));
                        }
                        set(&mut out, arg, args[i]);
                        i += 1;
                    } else {
                        proof {
                            if i < args.len() {
                                assert(here.drop_first()[0] == args[i as int]@);
                            }
                        }
                    }
                }
            },
        }
    }
    assert(all.skip(args@.len() as int).len() == 0);
    out
}

/// Whether an argument is one of the flags.
fn takes_value(arg: &str) -> (yes: bool)
    ensures
        yes == is_flag(arg@),
{
    text_eq(arg, "--server") || text_eq(arg, "--store") || text_eq(arg, "--name")
}

/// Gives a flag its value, unless that is blank.
fn set(out: &mut Provisioning, flag: &str, value: &str)
    ensures
        final(out)@ == old(out)@.with(flag@, value@),
{
    let value = trim(value);
    if value.is_empty() {
        return;
    }
    if text_eq(flag, "--server") {
        out.server = Some(value.to_owned());
    } else if text_eq(flag, "--store") {
        out.store = Some(value.to_owned());
    } else if text_eq(flag, "--name") {
        out.name = Some(value.to_owned());
    }
}

/// A provisioning that the command line can lead to holds no blank value.
pub open spec fn no_blank_value(p: ProvisioningView) -> bool {
    &&& p.server matches Some(v) ==> v.len() > 0
    &&& p.store matches Some(v) ==> v.len() > 0
    &&& p.name matches Some(v) ==> v.len() > 0
}

/// An omitted flag stays out of the provisioning, so its field is left alone.
pub proof fn law_omitted_flags_leave_their_field_alone(args: Seq<Seq<char>>, out: ProvisioningView)
    ensures
        (forall|i: int| 0 <= i < args.len() ==> flag_of(#[trigger] args[i]) != "--server"@)
            ==> provisioned(args, out).server == out.server,
        (forall|i: int| 0 <= i < args.len() ==> flag_of(#[trigger] args[i]) != "--store"@)
            ==> provisioned(args, out).store == out.store,
        (forall|i: int| 0 <= i < args.len() ==> flag_of(#[trigger] args[i]) != "--name"@)
            ==> provisioned(args, out).name == out.name,
    decreases args.len(),
{
    if args.len() > 0 {
        let rest = args.drop_first();
        let flag = flag_of(args[0]);
        assert forall|i: int| 0 <= i < rest.len() implies #[trigger] rest[i] == args[i + 1] by {}
        assert forall|i: int| 0 <= i < rest.len() - 1 implies #[trigger] rest.drop_first()[i]
            == args[i + 2] by {}
        if is_flag(flag) {
            match text::split_first(args[0], '=') {
                Some((f, value)) => {
                    law_omitted_flags_leave_their_field_alone(rest, out.with(f, value));
                },
                None => {
                    if rest.len() > 0 && !"--"@.is_prefix_of(rest[0]) {
                        law_omitted_flags_leave_their_field_alone(
                            rest.drop_first(),
                            out.with(flag, rest[0]),
                        );
                    } else {
                        law_omitted_flags_leave_their_field_alone(rest, out);
                    }
                },
            }
        } else {
            law_omitted_flags_leave_their_field_alone(rest, out);
        }
    }
}

/// Whether arguments do not end in a flag that waits for its value.
pub open spec fn settled(args: Seq<Seq<char>>) -> bool
    decreases args.len(),
{
    if args.len() == 0 {
        true
    } else {
        let rest = args.drop_first();
        match text::split_first(args[0], '=') {
            _ if !is_flag(flag_of(args[0])) => settled(rest),
            Some(_) => settled(rest),
            None => if rest.len() == 0 {
                false
            } else if !"--"@.is_prefix_of(rest[0]) {
                settled(rest.drop_first())
            } else {
                settled(rest)
            },
        }
    }
}

/// Arguments take effect one after the other: behind settled ones, the others do what they would
/// do alone.
pub proof fn law_arguments_take_effect_in_order(
    front: Seq<Seq<char>>,
    args: Seq<Seq<char>>,
    out: ProvisioningView,
)
    requires
        settled(front),
    ensures
        provisioned(front + args, out) == provisioned(args, provisioned(front, out)),
    decreases front.len(),
{
    let all = front + args;
    if front.len() == 0 {
        assert(all =~= args);
    } else {
        let rest = front.drop_first();
        let flag = flag_of(front[0]);
        assert(all[0] == front[0]);
        assert(all.drop_first() =~= rest + args);
        match text::split_first(front[0], '=') {
            _ if !is_flag(flag) => {
                law_arguments_take_effect_in_order(rest, args, out);
            },
            Some((f, value)) => {
                law_arguments_take_effect_in_order(rest, args, out.with(f, value));
            },
            None => {
                assert((rest + args)[0] == rest[0]);
                if !"--"@.is_prefix_of(rest[0]) {
                    assert((rest + args).drop_first() =~= rest.drop_first() + args);
                    law_arguments_take_effect_in_order(
                        rest.drop_first(),
                        args,
                        out.with(flag, rest[0]),
                    );
                } else {
                    law_arguments_take_effect_in_order(rest, args, out);
                }
            },
        }
    }
}

/// An argument that is none of the flags, and no flag's value, changes nothing.
pub proof fn law_unknown_arguments_are_ignored(
    front: Seq<Seq<char>>,
    unknown: Seq<char>,
    args: Seq<Seq<char>>,
    out: ProvisioningView,
)
    requires
        settled(front),
        !is_flag(flag_of(unknown)),
    ensures
        provisioned(front + (seq![unknown] + args), out) == provisioned(front + args, out),
{
    law_arguments_take_effect_in_order(front, seq![unknown] + args, out);
    law_arguments_take_effect_in_order(front, args, out);
    assert((seq![unknown] + args).drop_first() =~= args);
}

/// A flag without a value does not swallow the flag behind it.
pub proof fn law_a_flag_does_not_swallow_the_next_flag(
    front: Seq<Seq<char>>,
    flag: Seq<char>,
    args: Seq<Seq<char>>,
    out: ProvisioningView,
)
    requires
        settled(front),
        text::split_first(flag, '=') is None,
        args.len() > 0 ==> "--"@.is_prefix_of(args[0]),
    ensures
        provisioned(front + (seq![flag] + args), out) == provisioned(front + args, out),
{
    law_arguments_take_effect_in_order(front, seq![flag] + args, out);
    law_arguments_take_effect_in_order(front, args, out);
    assert((seq![flag] + args).drop_first() =~= args);
}

/// `--flag value` and `--flag=value` do the same.
pub proof fn law_both_forms_do_the_same(
    front: Seq<Seq<char>>,
    flag: Seq<char>,
    value: Seq<char>,
    args: Seq<Seq<char>>,
    out: ProvisioningView,
)
    requires
        settled(front),
        is_flag(flag),
        !"--"@.is_prefix_of(value),
    ensures
        provisioned(front + (seq![flag, value] + args), out) == provisioned(
            front + (seq![flag + seq!['='] + value] + args),
            out,
        ),
        provisioned(front + (seq![flag, value] + args), out) == provisioned(
            args,
            provisioned(front, out).with(flag, value),
        ),
{
    reveal_strlit("--server");
    reveal_strlit("--store");
    reveal_strlit("--name");
    text::lemma_split_first_absent(flag, '=');
    text::lemma_split_first_at(flag, value, '=');
    let two = seq![flag, value] + args;
    assert(two.drop_first()[0] == value);
    assert(two.drop_first().drop_first() =~= args);
    let one = seq![flag + seq!['='] + value] + args;
    assert(one.drop_first() =~= args);
    law_arguments_take_effect_in_order(front, two, out);
    law_arguments_take_effect_in_order(front, one, out);
}

/// A blank value is not treated as provisioning: whatever the arguments, no value comes out
/// blank.
pub proof fn law_blank_values_are_not_provisioning(args: Seq<Seq<char>>, out: ProvisioningView)
    requires
        no_blank_value(out),
    ensures
        no_blank_value(provisioned(args, out)),
    decreases args.len(),
{
    if args.len() > 0 {
        let rest = args.drop_first();
        let flag = flag_of(args[0]);
        if is_flag(flag) {
            match text::split_first(args[0], '=') {
                Some((f, value)) => {
                    law_blank_values_are_not_provisioning(rest, out.with(f, value));
                },
                None => {
                    if rest.len() > 0 && !"--"@.is_prefix_of(rest[0]) {
                        law_blank_values_are_not_provisioning(
                            rest.drop_first(),
                            out.with(flag, rest[0]),
                        );
                    } else {
                        law_blank_values_are_not_provisioning(rest, out);
                    }
                },
            }
        } else {
            law_blank_values_are_not_provisioning(rest, out);
        }
    }
}

/// A flag sets its own field, to the value without white space around it, and no other; a blank
/// value sets nothing.
pub proof fn law_a_flag_sets_its_own_field(
    value: Seq<char>,
    out: ProvisioningView,
)
    ensures
        ({
            let server = out.with("--server"@, value);
            let store = out.with("--store"@, value);
            let name = out.with("--name"@, value);
            if text::trimmed(value).len() == 0 {
                server == out && store == out && name == out
            } else {
                &&& server.server == Some(text::trimmed(value))
                &&& server.store == out.store
                &&& server.name == out.name
                &&& store.store == Some(text::trimmed(value))
                &&& store.server == out.server
                &&& store.name == out.name
                &&& name.name == Some(text::trimmed(value))
                &&& name.server == out.server
                &&& name.store == out.store
            }
        }),
{
    lemma_flags_differ();
}

proof fn lemma_flags_differ()
    ensures
        "--server"@ != "--store"@,
        "--server"@ != "--name"@,
        "--store"@ != "--name"@,
{
    reveal_strlit("--server");
    reveal_strlit("--store");
    reveal_strlit("--name");
    assert("--server"@.len() == 8 && "--store"@.len() == 7 && "--name"@.len() == 6);
}

/// The whole command line at once: each of the three flags, in this order and with a value that is
/// no flag, provisions its field.
pub proof fn law_three_flags_provision_three_fields(
    server: Seq<char>,
    store: Seq<char>,
    name: Seq<char>,
)
    requires
        text::trimmed(server).len() > 0,
        text::trimmed(store).len() > 0,
        text::trimmed(name).len() > 0,
        !"--"@.is_prefix_of(server),
        !"--"@.is_prefix_of(store),
        !"--"@.is_prefix_of(name),
    ensures
        ({
            let out = provisioned(
                seq!["--server"@, server] + (seq!["--store"@, store] + seq!["--name"@, name]),
                ProvisioningView { server: None, store: None, name: None },
            );
            &&& out.server == Some(text::trimmed(server))
            &&& out.store == Some(text::trimmed(store))
            &&& out.name == Some(text::trimmed(name))
        }),
{
    let none = ProvisioningView { server: None, store: None, name: None };
    let empty = Seq::<Seq<char>>::empty();
    let third = seq!["--name"@, name];
    let second = seq!["--store"@, store] + third;
    let first = seq!["--server"@, server] + second;
    assert(empty + first =~= first);
    assert(empty + second =~= second);
    assert(empty + (third + empty) =~= third);
    lemma_flags_differ();
    law_both_forms_do_the_same(empty, "--server"@, server, second, none);
    let a = none.with("--server"@, server);
    assert(provisioned(empty, none) == none);
    law_both_forms_do_the_same(empty, "--store"@, store, third, a);
    assert(provisioned(empty, a) == a);
    let b = a.with("--store"@, store);
    law_both_forms_do_the_same(empty, "--name"@, name, empty, b);
    assert(provisioned(empty, b) == b);
}

/// A provisioning is known by its fields.
pub proof fn law_a_provisioning_is_known_by_its_fields(out: Provisioning, args: Seq<&str>, i: int)
    ensures
        out@.server == text::opt_text(out.server),
        out@.store == text::opt_text(out.store),
        out@.name == text::opt_text(out.name),
        texts(args).len() == args.len(),
        0 <= i < args.len() ==> texts(args)[i] == args[i]@,
{
}

} // verus!
