use vstd::prelude::*;

use crate::text::{concat, replace, replace_all};

verus! {

/// The placeholder `{key}`.
pub open spec fn placeholder(key: Seq<char>) -> Seq<char> {
    seq!['{'] + key + seq!['}']
}

/// `template` with each variable's placeholder replaced by its value, variables
/// taken in order.
pub open spec fn rendered(template: Seq<char>, vars: Seq<(Seq<char>, Seq<char>)>) -> Seq<char>
    decreases vars.len(),
{
    if vars.len() == 0 {
        template
    } else {
        let prev = rendered(template, vars.drop_last());
        replace_all(prev, placeholder(vars.last().0), vars.last().1)
    }
}

/// Whether some variable is named `key`.
pub open spec fn has_var(vars: Seq<(Seq<char>, Seq<char>)>, key: Seq<char>) -> bool {
    exists|i: int| 0 <= i < vars.len() && #[trigger] vars[i].0 == key
}

/// Setting `key` to `value`: an existing variable of that name takes the value in
/// place, otherwise the variable is appended.
pub open spec fn with_var(vars: Seq<(Seq<char>, Seq<char>)>, key: Seq<char>, value: Seq<char>) -> Seq<
    (Seq<char>, Seq<char>),
> {
    if has_var(vars, key) {
        vars.update(choose|i: int| 0 <= i < vars.len() && #[trigger] vars[i].0 == key, (key, value))
    } else {
        vars.push((key, value))
    }
}

/// A text with `{name}` placeholders and the values to put in them.
pub struct PromptTemplate {
    template: String,
    variables: Vec<(String, String)>,
}

impl PromptTemplate {
    /// The text with its placeholders.
    pub closed spec fn template_spec(&self) -> Seq<char> {
        self.template@
    }

    /// The variables, in the order they were first set.
    pub closed spec fn vars(&self) -> Seq<(Seq<char>, Seq<char>)> {
        self.variables@.map_values(|e: (String, String)| (e.0@, e.1@))
    }

    /// Names are unique.
    pub open spec fn wf(&self) -> bool {
        forall|i: int, j: int| 0 <= i < j < self.vars().len() ==> self.vars()[i].0 != self.vars()[j].0
    }

    /// A template over `template` with no variables set.
    pub fn new(template: &str) -> (r: Self)
        ensures
            r.wf(),
            r.template_spec() == template@,
            r.vars().len() == 0,
    {
        PromptTemplate { template: template.to_owned(), variables: Vec::new() }
    }

    /// Sets variable `key` to `value`.
    pub fn set_variable(&mut self, key: &str, value: &str)
        requires
            old(self).wf(),
        ensures
            final(self).wf(),
            final(self).template_spec() == old(self).template_spec(),
            final(self).vars() == with_var(old(self).vars(), key@, value@),
    {
        let ghost vs = self.vars();
        let k = key.to_owned();
        assert(k@ == key@);
        let mut i: usize = 0;
        while i < self.variables.len()
            invariant
                vs == self.vars(),
                k@ == key@,
                old(self).wf(),
                *self == *old(self),
                i <= self.variables.len(),
                forall|j: int| 0 <= j < i ==> vs[j].0 != key@,
            decreases self.variables.len() - i,
        {
            assert(vs[i as int] == (self.variables@[i as int].0@, self.variables@[i as int].1@));
            if self.variables[i].0 == k {
                let ghost c = choose|j: int| 0 <= j < vs.len() && #[trigger] vs[j].0 == key@;
                assert(vs[i as int].0 == key@);
                assert(c == i) by {
                    if c < i {
                        assert(vs[c].0 != vs[i as int].0);
                    } else if c > i {
                        assert(vs[i as int].0 != vs[c].0);
                    }
                };
                self.variables.set(i, (k, value.to_owned()));
                assert(self.vars() =~= vs.update(i as int, (key@, value@)));
                return;
            }
            i = i + 1;
        }
        self.variables.push((k, value.to_owned()));
        assert(self.vars() =~= vs.push((key@, value@)));
    }

    /// The template with every placeholder of a set variable replaced by its
    /// value, variables taken in the order they were first set.
    pub fn render(&self) -> (r: String)
        ensures
            r@ == rendered(self.template_spec(), self.vars()),
    {
        let ghost vs = self.vars();
        let mut result = self.template.clone();
        let mut i: usize = 0;
        while i < self.variables.len()
            invariant
                vs == self.vars(),
                i <= self.variables.len(),
                result@ == rendered(self.template_spec(), vs.subrange(0, i as int)),
            decreases self.variables.len() - i,
        {
            let open_key = concat("{", self.variables[i].0.as_str());
            let pattern = concat(open_key.as_str(), "}");
            proof {
                reveal_strlit("{");
                reveal_strlit("}");
            }
            assert(pattern@ =~= placeholder(vs[i as int].0));
            result = replace(result.as_str(), pattern.as_str(), self.variables[i].1.as_str());
            assert(vs.subrange(0, i + 1).drop_last() =~= vs.subrange(0, i as int));
            i = i + 1;
        }
        assert(vs.subrange(0, self.variables.len() as int) =~= vs);
        result
    }
}

} // verus!
