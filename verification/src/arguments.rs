//! The arguments an application was started with.
//!
//! The arguments are split as `next_web_core`'s simple command line parser
//! splits them: an argument `--name` or `--name=value` is an option, the
//! argument `--` ends the options, and every other argument is a non-option
//! argument.

use next_web_core::env::{CommandLinePropertySourceExt, PropertySource, SimpleCommandLinePropertySource};
use vstd::prelude::*;

use crate::config::profiles::views;
use crate::text::{chars_of, copy_strings};

verus! {

broadcast use vstd::string::group_string_axioms;

/// Whether an argument starts with `--`, as an option does.
pub open spec fn is_option_arg(arg: Seq<char>) -> bool {
    arg.len() >= 2 && arg[0] == '-' && arg[1] == '-'
}

/// The index of the argument `--` that ends the options, or the number of
/// arguments when there is none.
pub open spec fn end_of_options_spec(args: Seq<Seq<char>>) -> int
    decreases args.len(),
{
    if args.len() == 0 {
        0
    } else if args[0] == seq!['-', '-'] {
        0
    } else {
        1 + end_of_options_spec(args.drop_first())
    }
}

/// The end of the options is one of the arguments, or just past them.
pub proof fn lemma_end_of_options(args: Seq<Seq<char>>)
    ensures
        0 <= end_of_options_spec(args) <= args.len(),
    decreases args.len(),
{
    if args.len() > 0 {
        lemma_end_of_options(args.drop_first());
    }
}

/// The arguments before the end of the options.
pub open spec fn leading_args(args: Seq<Seq<char>>) -> Seq<Seq<char>> {
    args.take(end_of_options_spec(args))
}

/// The name of an option: what follows `--`, up to the first `=`.
pub open spec fn option_name_spec(arg: Seq<char>) -> Seq<char> {
    let text = arg.skip(2);
    let i = crate::text::find_spec(text, '=');
    if i < 0 {
        text
    } else {
        text.take(i)
    }
}

/// The value of an option: what follows its first `=`, if it has one.
pub open spec fn option_value_spec(arg: Seq<char>) -> Option<Seq<char>> {
    let text = arg.skip(2);
    let i = crate::text::find_spec(text, '=');
    if i < 0 {
        None
    } else {
        Some(text.skip(i + 1))
    }
}

/// Whether the arguments can be parsed: no option before the end of the
/// options has an empty name followed by `=`, which the parser refuses by
/// panicking.
pub open spec fn arguments_well_formed_spec(args: Seq<Seq<char>>) -> bool {
    forall|i: int|
        0 <= i < end_of_options_spec(args) ==> !(is_option_arg(#[trigger] args[i]) && args[i].len() > 2
            && args[i][2] == '=')
}

/// The option arguments of the given name, in their order.
pub open spec fn options_named(args: Seq<Seq<char>>, name: Seq<char>) -> Seq<Seq<char>> {
    leading_args(args).filter(|a: Seq<char>| is_option_arg(a) && option_name_spec(a) == name)
}

/// The values given to an option, in their order, or `None` when the option
/// is not given; an option given without `=` has no value.
pub open spec fn option_values_spec(args: Seq<Seq<char>>, name: Seq<char>) -> Option<Seq<Seq<char>>> {
    let named = options_named(args, name);
    if named.len() == 0 {
        None
    } else {
        Some(
            named.filter(|a: Seq<char>| option_value_spec(a) is Some).map_values(
                |a: Seq<char>| option_value_spec(a)->0,
            ),
        )
    }
}

/// The non-option arguments, in their order: those before the end of the
/// options that do not start with `--`, then every argument after it.
pub open spec fn non_option_args_spec(args: Seq<Seq<char>>) -> Seq<Seq<char>> {
    let end = end_of_options_spec(args);
    leading_args(args).filter(|a: Seq<char>| !is_option_arg(a)) + if end < args.len() {
        args.skip(end + 1)
    } else {
        Seq::empty()
    }
}

/// The values of the first option of the given name in a list of options.
pub open spec fn option_lookup(options: Seq<(String, Vec<String>)>, name: Seq<char>) -> Option<Seq<Seq<char>>>
    decreases options.len(),
{
    if options.len() == 0 {
        None
    } else if options[0].0@ == name {
        Some(views(options[0].1@))
    } else {
        option_lookup(options.drop_first(), name)
    }
}

/// Whether no two options of a list have the same name.
pub open spec fn option_names_distinct(options: Seq<(String, Vec<String>)>) -> bool {
    forall|i: int, j: int| 0 <= i < j < options.len() ==> #[trigger] options[i].0@ != #[trigger] options[j].0@
}

/// Parses the arguments with `next_web_core::env::SimpleCommandLinePropertySource::new`
/// and hands out, in no particular order, each option with its values, and
/// the non-option arguments.
///
/// The parser panics on an option with an empty name and a value, which
/// the `requires` leaves out. What it returns for each name, and the
/// non-option arguments, are what its documentation and source give; the
/// order of the options is that of a hash map and is not claimed.
#[verifier::external_body]
fn parse_command_line(args: &Vec<String>) -> (r: (Vec<(String, Vec<String>)>, Vec<String>))
    requires
        arguments_well_formed_spec(views(args@)),
    ensures
        option_names_distinct(r.0@),
        forall|name: Seq<char>| #[trigger] option_lookup(r.0@, name) == option_values_spec(views(args@), name),
        views(r.1@) == non_option_args_spec(views(args@)),
{
    let source = SimpleCommandLinePropertySource::new(args);
    let parsed = source.source();
    let options = parsed.option_names().into_iter().map(|name| {
        (name.to_owned(), parsed.option_values(name).unwrap_or_default().to_vec())
    }).collect();
    (options, parsed.non_option_args().to_vec())
}

/// Returns whether the arguments can be parsed: no option before the end of
/// the options has an empty name followed by `=`.
pub fn arguments_well_formed(args: &Vec<String>) -> (r: bool)
    ensures
        r == arguments_well_formed_spec(views(args@)),
{
    let ghost all = views(args@);
    let mut i: usize = 0;
    assert(all.skip(0) =~= all);
    while i < args.len()
        invariant
            i <= args.len(),
            all == views(args@),
            end_of_options_spec(all) == i + end_of_options_spec(all.skip(i as int)),
            forall|k: int| 0 <= k < i ==> !(is_option_arg(#[trigger] all[k]) && all[k].len() > 2 && all[k][2] == '='),
        decreases args.len() - i,
    {
        let arg = chars_of(args[i].as_str());
        assert(arg@ == all[i as int]);
        assert(all.skip(i as int)[0] == all[i as int]);
        assert(all.skip(i as int).drop_first() =~= all.skip(i + 1));
        if arg.len() == 2 && arg[0] == '-' && arg[1] == '-' {
            assert(arg@ =~= seq!['-', '-']);
            return true;
        }
        if arg.len() > 2 && arg[0] == '-' && arg[1] == '-' && arg[2] == '=' {
            proof {
                assert(all.skip(i as int)[0] != seq!['-', '-']);
                lemma_end_of_options(all.skip(i + 1));
                assert(end_of_options_spec(all) > i);
            }
            return false;
        }
        proof {
            if arg@.len() == 2 && arg@[0] == '-' && arg@[1] == '-' {
                assert(arg@ =~= seq!['-', '-']);
            }
        }
        i = i + 1;
    }
    true
}

/// The arguments an application was started with, with its options and its
/// non-option arguments.
#[derive(Debug)]
pub struct DefaultApplicationArguments {
    args: Vec<String>,
    options: Vec<(String, Vec<String>)>,
    non_option_args: Vec<String>,
}

impl DefaultApplicationArguments {
    /// The arguments as they were given.
    pub closed spec fn args_spec(&self) -> Seq<Seq<char>> {
        views(self.args@)
    }

    /// The options and the non-option arguments are those the arguments
    /// give.
    #[verifier::type_invariant]
    closed spec fn parsed(&self) -> bool {
        &&& arguments_well_formed_spec(views(self.args@))
        &&& option_names_distinct(self.options@)
        &&& forall|name: Seq<char>| #[trigger] option_lookup(self.options@, name) == option_values_spec(
            views(self.args@),
            name,
        )
        &&& views(self.non_option_args@) == non_option_args_spec(views(self.args@))
    }

    /// Creates the arguments of an application from the raw arguments, which
    /// must be well formed: an option with an empty name and a value cannot
    /// be parsed.
    pub fn new(args: Vec<String>) -> (r: Self)
        requires
            arguments_well_formed_spec(views(args@)),
        ensures
            r.args_spec() == views(args@),
    {
        let (options, non_option_args) = parse_command_line(&args);
        DefaultApplicationArguments { args, options, non_option_args }
    }

    /// Creates the arguments of an application from the raw arguments, or
    /// returns `None` when they are not well formed.
    pub fn parse(args: Vec<String>) -> (r: Option<Self>)
        ensures
            r is Some <==> arguments_well_formed_spec(views(args@)),
            r matches Some(a) ==> a.args_spec() == views(args@),
    {
        if arguments_well_formed(&args) {
            Some(DefaultApplicationArguments::new(args))
        } else {
            None
        }
    }

    /// Returns the arguments as they were given.
    pub fn source_args(&self) -> (r: &Vec<String>)
        ensures
            views(r@) == self.args_spec(),
    {
        &self.args
    }

    /// Returns the values given to the option of the given name, in their
    /// order, or `None` when the option is not given.
    pub fn option_values(&self, name: &str) -> (r: Option<Vec<String>>)
        ensures
            match r {
                Some(v) => option_values_spec(self.args_spec(), name@) == Some(views(v@)),
                None => option_values_spec(self.args_spec(), name@) is None,
            },
    {
        proof {
            use_type_invariant(self);
        }
        let ghost options = self.options@;
        let key = name.to_owned();
        let mut i: usize = 0;
        assert(options.skip(0) =~= options);
        assert(option_lookup(options, name@) == option_values_spec(self.args_spec(), name@));
        while i < self.options.len()
            invariant
                i <= self.options.len(),
                options == self.options@,
                key@ == name@,
                option_lookup(options, name@) == option_lookup(options.skip(i as int), name@),
                option_lookup(options, name@) == option_values_spec(self.args_spec(), name@),
            decreases self.options.len() - i,
        {
            assert(options.skip(i as int)[0] == options[i as int]);
            assert(options.skip(i as int).drop_first() =~= options.skip(i + 1));
            if self.options[i].0 == key {
                assert(options[i as int].0@ == name@);
                assert(option_lookup(options.skip(i as int), name@) == Some(views(options[i as int].1@)));
                let values = copy_strings(&self.options[i].1);
                assert(views(values@) == views(options[i as int].1@));
                return Some(values);
            }
            i = i + 1;
        }
        None
    }

    /// Returns whether the option of the given name is given.
    pub fn contains_option(&self, name: &str) -> (r: bool)
        ensures
            r == option_values_spec(self.args_spec(), name@) is Some,
    {
        self.option_values(name).is_some()
    }

    /// Returns the names of the options that are given, each once, in no
    /// particular order.
    pub fn option_names(&self) -> (r: Vec<String>)
        ensures
            forall|i: int, j: int| 0 <= i < j < r@.len() ==> #[trigger] r@[i]@ != #[trigger] r@[j]@,
            forall|name: Seq<char>|
                #[trigger] views(r@).contains(name) <==> option_values_spec(self.args_spec(), name) is Some,
    {
        proof {
            use_type_invariant(self);
        }
        let ghost options = self.options@;
        let mut names: Vec<String> = Vec::new();
        let mut i: usize = 0;
        while i < self.options.len()
            invariant
                i <= self.options.len(),
                options == self.options@,
                option_names_distinct(options),
                names@.len() == i,
                forall|k: int| 0 <= k < i ==> #[trigger] names@[k]@ == options[k].0@,
            decreases self.options.len() - i,
        {
            names.push(self.options[i].0.clone());
            i = i + 1;
        }
        proof {
            assert forall|name: Seq<char>| #[trigger] views(names@).contains(name) <==> option_lookup(options, name) is Some by {
                lemma_option_lookup(options, name);
                if views(names@).contains(name) {
                    let k = choose|k: int| 0 <= k < views(names@).len() && views(names@)[k] == name;
                    assert(options[k].0@ == name);
                }
                if option_lookup(options, name) is Some {
                    let k = choose|k: int| 0 <= k < options.len() && options[k].0@ == name;
                    assert(views(names@)[k] == name);
                }
            }
        }
        names
    }

    /// Returns the non-option arguments, in their order.
    pub fn non_option_args(&self) -> (r: &Vec<String>)
        ensures
            views(r@) == non_option_args_spec(self.args_spec()),
    {
        proof {
            use_type_invariant(self);
        }
        &self.non_option_args
    }
}

/// An option of a list is found exactly when one of the options has its
/// name.
proof fn lemma_option_lookup(options: Seq<(String, Vec<String>)>, name: Seq<char>)
    ensures
        option_lookup(options, name) is Some <==> exists|k: int| 0 <= k < options.len() && options[k].0@ == name,
    decreases options.len(),
{
    if options.len() > 0 && options[0].0@ != name {
        lemma_option_lookup(options.drop_first(), name);
        if exists|k: int| 0 <= k < options.len() && options[k].0@ == name {
            let k = choose|k: int| 0 <= k < options.len() && options[k].0@ == name;
            assert(options.drop_first()[k - 1] == options[k]);
        }
        if exists|k: int| 0 <= k < options.drop_first().len() && options.drop_first()[k].0@ == name {
            let k = choose|k: int| 0 <= k < options.drop_first().len() && options.drop_first()[k].0@ == name;
            assert(options[k + 1] == options.drop_first()[k]);
        }
    } else if options.len() > 0 {
        assert(options[0].0@ == name);
    }
}

} // verus!
