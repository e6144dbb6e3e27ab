//! The scope a template renders against: variables, the names of the
//! pipes and functions the host provides, and registered templates.

use std::sync::Arc;
use vstd::prelude::*;

use crate::template::Template;
use crate::text::{chars_eq, chars_of};
use crate::value::{
    field_get, field_of, field_set, fields_set, fields_view, lemma_field_of_first,
    lemma_field_of_none, lemma_field_of_set_other, lemma_field_of_set_same, lemma_fields_set_absent,
    lemma_fields_set_at, Val, Value,
};

verus! {

/// Variables, pipe and function names, and templates, each looked up by
/// name. Setting a name that is already present replaces its entry.
#[derive(Clone)]
pub struct Scope {
    vars: Vec<(String, Value)>,
    pipes: Vec<String>,
    funcs: Vec<String>,
    templates: Vec<(String, Arc<Template>)>,
}

/// The named templates of a list of entries.
pub open spec fn template_entries(s: Seq<(String, Arc<Template>)>) -> Seq<(Seq<char>, Template)> {
    Seq::new(s.len(), |i: int| (s[i].0@, *s[i].1))
}

/// Whether `name` is among `names`.
pub open spec fn has_name(names: Seq<String>, name: Seq<char>) -> bool {
    exists|i: int| 0 <= i < names.len() && #[trigger] names[i]@ == name
}

/// The index of the first entry whose key is `key`, if there is one.
fn find_key<T>(entries: &Vec<(String, T)>, key: &str) -> (r: Option<usize>)
    ensures
        match r {
            Some(i) => i < entries@.len() && entries@[i as int].0@ == key@ && forall|j: int|
                0 <= j < i ==> #[trigger] entries@[j].0@ != key@,
            None => forall|j: int| 0 <= j < entries@.len() ==> #[trigger] entries@[j].0@ != key@,
        },
{
    let kv = chars_of(key);
    let mut i: usize = 0;
    while i < entries.len()
        invariant
            i <= entries@.len(),
            kv@ == key@,
            forall|j: int| 0 <= j < i ==> #[trigger] entries@[j].0@ != key@,
        decreases entries@.len() - i,
    {
        let ev = chars_of(entries[i].0.as_str());
        if chars_eq(&ev, &kv) {
            return Some(i);
        }
        i += 1;
    }
    None
}

/// Whether `name` is among `names`.
fn find_name(names: &Vec<String>, name: &str) -> (r: Option<usize>)
    ensures
        match r {
            Some(i) => i < names@.len() && names@[i as int]@ == name@,
            None => !has_name(names@, name@),
        },
{
    let kv = chars_of(name);
    let mut i: usize = 0;
    while i < names.len()
        invariant
            i <= names@.len(),
            kv@ == name@,
            forall|j: int| 0 <= j < i ==> #[trigger] names@[j]@ != name@,
        decreases names@.len() - i,
    {
        let ev = chars_of(names[i].as_str());
        if chars_eq(&ev, &kv) {
            return Some(i);
        }
        i += 1;
    }
    None
}

impl Scope {
    /// The variables, as named values.
    pub closed spec fn vars_view(&self) -> Seq<(Seq<char>, Val)> {
        fields_view(self.vars@)
    }

    /// The value of variable `name`, if it is set.
    pub open spec fn var_of(&self, name: Seq<char>) -> Option<Val> {
        field_of(self.vars_view(), name)
    }

    /// Whether a pipe is registered under `name`.
    pub closed spec fn has_pipe(&self, name: Seq<char>) -> bool {
        has_name(self.pipes@, name)
    }

    /// Whether a function is registered under `name`.
    pub closed spec fn has_func(&self, name: Seq<char>) -> bool {
        has_name(self.funcs@, name)
    }

    /// The registered templates, as named templates.
    pub closed spec fn templates_view(&self) -> Seq<(Seq<char>, Template)> {
        template_entries(self.templates@)
    }

    /// The template registered under `name`, if there is one.
    pub open spec fn template_of(&self, name: Seq<char>) -> Option<Template> {
        field_of(self.templates_view(), name)
    }

    /// An empty scope.
    pub fn new() -> (s: Scope)
        ensures
            forall|n: Seq<char>| #[trigger] s.var_of(n) is None,
            forall|n: Seq<char>| !#[trigger] s.has_pipe(n),
            forall|n: Seq<char>| !#[trigger] s.has_func(n),
            forall|n: Seq<char>| #[trigger] s.template_of(n) is None,
    {
        let s = Scope { vars: Vec::new(), pipes: Vec::new(), funcs: Vec::new(), templates: Vec::new() };
        assert forall|n: Seq<char>| #[trigger] s.var_of(n) is None by {
            assert(s.vars_view().len() == 0);
        }
        assert forall|n: Seq<char>| #[trigger] s.template_of(n) is None by {
            assert(s.templates_view().len() == 0);
        }
        s
    }

    /// The value of variable `name`.
    pub fn var(&self, name: &str) -> (r: Option<&Value>)
        ensures
            match r {
                Some(v) => self.var_of(name@) == Some(v@),
                None => self.var_of(name@) is None,
            },
    {
        field_get(&self.vars, name)
    }

    /// The registered name of pipe `name`, if there is one.
    pub fn pipe(&self, name: &str) -> (r: Option<&String>)
        ensures
            r is Some <==> self.has_pipe(name@),
            r matches Some(n) ==> n@ == name@,
    {
        match find_name(&self.pipes, name) {
            Some(i) => Some(&self.pipes[i]),
            None => None,
        }
    }

    /// The registered name of function `name`, if there is one.
    pub fn func(&self, name: &str) -> (r: Option<&String>)
        ensures
            r is Some <==> self.has_func(name@),
            r matches Some(n) ==> n@ == name@,
    {
        match find_name(&self.funcs, name) {
            Some(i) => Some(&self.funcs[i]),
            None => None,
        }
    }

    /// The template registered under `name`.
    pub fn template(&self, name: &str) -> (r: Option<&Template>)
        ensures
            match r {
                Some(t) => self.template_of(name@) == Some(*t),
                None => self.template_of(name@) is None,
            },
    {
        match find_key(&self.templates, name) {
            Some(i) => {
                proof {
                    let e = template_entries(self.templates@);
                    assert forall|j: int| 0 <= j < i implies #[trigger] e[j].0 != name@ by {
                        assert(self.templates@[j].0@ != name@);
                    }
                    lemma_field_of_first(e, name@, i as int);
                }
                Some(&*self.templates[i].1)
            },
            None => {
                proof {
                    let e = template_entries(self.templates@);
                    assert forall|j: int| 0 <= j < e.len() implies #[trigger] e[j].0 != name@ by {
                        assert(self.templates@[j].0@ != name@);
                    }
                    lemma_field_of_none(e, name@);
                }
                None
            },
        }
    }

    /// Sets variable `name` to `value`.
    pub fn set_var(&mut self, name: &str, value: Value)
        ensures
            final(self).vars_view() == fields_set(old(self).vars_view(), name@, value@),
            forall|n: Seq<char>| final(self).has_pipe(n) == old(self).has_pipe(n),
            forall|n: Seq<char>| final(self).has_func(n) == old(self).has_func(n),
            final(self).templates_view() == old(self).templates_view(),
    {
        field_set(&mut self.vars, name.to_string(), value);
    }

    /// Registers a pipe under `name`.
    pub fn set_pipe(&mut self, name: &str)
        ensures
            forall|n: Seq<char>| #[trigger] final(self).has_pipe(n) == (old(self).has_pipe(n) || n == name@),
            final(self).vars_view() == old(self).vars_view(),
            forall|n: Seq<char>| final(self).has_func(n) == old(self).has_func(n),
            final(self).templates_view() == old(self).templates_view(),
    {
        if find_name(&self.pipes, name).is_none() {
            let ghost before = self.pipes@;
            self.pipes.push(name.to_string());
            proof {
                assert forall|n: Seq<char>| #[trigger] has_name(self.pipes@, n) == (has_name(before, n) || n == name@) by {
                    if has_name(self.pipes@, n) {
                        let i = choose|i: int| 0 <= i < self.pipes@.len() && #[trigger] self.pipes@[i]@ == n;
                        if i < before.len() {
                            assert(before[i]@ == n);
                        }
                    }
                    if has_name(before, n) {
                        let i = choose|i: int| 0 <= i < before.len() && #[trigger] before[i]@ == n;
                        assert(self.pipes@[i]@ == n);
                    }
                    if n == name@ {
                        assert(self.pipes@[before.len() as int]@ == n);
                    }
                }
            }
        }
    }

    /// Registers a function under `name`.
    pub fn set_func(&mut self, name: &str)
        ensures
            forall|n: Seq<char>| #[trigger] final(self).has_func(n) == (old(self).has_func(n) || n == name@),
            final(self).vars_view() == old(self).vars_view(),
            forall|n: Seq<char>| final(self).has_pipe(n) == old(self).has_pipe(n),
            final(self).templates_view() == old(self).templates_view(),
    {
        if find_name(&self.funcs, name).is_none() {
            let ghost before = self.funcs@;
            self.funcs.push(name.to_string());
            proof {
                assert forall|n: Seq<char>| #[trigger] has_name(self.funcs@, n) == (has_name(before, n) || n == name@) by {
                    if has_name(self.funcs@, n) {
                        let i = choose|i: int| 0 <= i < self.funcs@.len() && #[trigger] self.funcs@[i]@ == n;
                        if i < before.len() {
                            assert(before[i]@ == n);
                        }
                    }
                    if has_name(before, n) {
                        let i = choose|i: int| 0 <= i < before.len() && #[trigger] before[i]@ == n;
                        assert(self.funcs@[i]@ == n);
                    }
                    if n == name@ {
                        assert(self.funcs@[before.len() as int]@ == n);
                    }
                }
            }
        }
    }

    /// Registers `template` under `name`.
    pub fn set_template(&mut self, name: &str, template: Template)
        ensures
            final(self).templates_view() == fields_set(old(self).templates_view(), name@, template),
            final(self).vars_view() == old(self).vars_view(),
            forall|n: Seq<char>| final(self).has_pipe(n) == old(self).has_pipe(n),
            forall|n: Seq<char>| final(self).has_func(n) == old(self).has_func(n),
    {
        let ghost before = self.templates@;
        let ghost t = template;
        match find_key(&self.templates, name) {
            Some(i) => {
                self.templates.set(i, (name.to_string(), Arc::new(template)));
                proof {
                    let e = template_entries(before);
                    assert forall|j: int| 0 <= j < i implies #[trigger] e[j].0 != name@ by {
                        assert(before[j].0@ != name@);
                    }
                    lemma_fields_set_at(e, name@, t, i as int);
                    assert(template_entries(self.templates@) == e.update(i as int, (name@, t)));
                }
            },
            None => {
                self.templates.push((name.to_string(), Arc::new(template)));
                proof {
                    let e = template_entries(before);
                    assert forall|j: int| 0 <= j < e.len() implies #[trigger] e[j].0 != name@ by {
                        assert(before[j].0@ != name@);
                    }
                    lemma_fields_set_absent(e, name@, t);
                    assert(template_entries(self.templates@) == e.push((name@, t)));
                }
            },
        }
    }
}

/// Reading a variable after setting it gives the value set.
pub proof fn law_var_set_get(before: Scope, after: Scope, name: Seq<char>, v: Val)
    requires
        after.vars_view() == fields_set(before.vars_view(), name, v),
    ensures
        after.var_of(name) == Some(v),
{
    lemma_field_of_set_same(before.vars_view(), name, v);
}

/// Setting a variable leaves every other variable as it was.
pub proof fn law_var_set_other(before: Scope, after: Scope, name: Seq<char>, v: Val, other: Seq<
    char,
>)
    requires
        after.vars_view() == fields_set(before.vars_view(), name, v),
        other != name,
    ensures
        after.var_of(other) == before.var_of(other),
{
    lemma_field_of_set_other(before.vars_view(), name, v, other);
}

/// Looking up a template after registering it gives that template, and
/// other names keep theirs.
pub proof fn law_template_set_get(before: Scope, after: Scope, name: Seq<char>, t: Template, other: Seq<
    char,
>)
    requires
        after.templates_view() == fields_set(before.templates_view(), name, t),
    ensures
        after.template_of(name) == Some(t),
        other != name ==> after.template_of(other) == before.template_of(other),
{
    lemma_field_of_set_same(before.templates_view(), name, t);
    if other != name {
        lemma_field_of_set_other(before.templates_view(), name, t, other);
    }
}

} // verus!
