//! Server hooks: named lists of commands run in response to events.
//!
//! A store maps each hook name to the list of command argument vectors
//! registered for it. Names are kept in ascending order, which is the order
//! in which `list` reports them.

use vstd::prelude::*;
use crate::text::{
    chars_eq, chars_less, decimal, join, join_strings, lemma_seq_less_total, lemma_seq_less_trans,
    push_all, push_char, seq_less, str_chars, string_from_chars, strings_view, usize_to_string,
};

verus! {

/// The view of one command's argument vector.
pub open spec fn argv_view(v: Vec<String>) -> Seq<Seq<char>> {
    strings_view(v@)
}

/// The views of a list of commands.
pub open spec fn commands_view(c: Seq<Vec<String>>) -> Seq<Seq<Seq<char>>> {
    c.map_values(|v: Vec<String>| argv_view(v))
}

/// One hook: its name and its commands.
pub struct HookEntry {
    name: String,
    commands: Vec<Vec<String>>,
}

/// Storage for hook command lists.
pub struct HookStore {
    hooks: Vec<HookEntry>,
}

/// The abstract content of a store: `(name, commands)` pairs.
pub type HooksView = Seq<(Seq<char>, Seq<Seq<Seq<char>>>)>;

/// Names are strictly ascending.
pub open spec fn hooks_sorted(v: HooksView) -> bool {
    forall|i: int, j: int| 0 <= i < j < v.len() ==> seq_less(#[trigger] v[i].0, #[trigger] v[j].0)
}

/// Whether `name` is registered.
pub open spec fn has_hook(v: HooksView, name: Seq<char>) -> bool {
    exists|i: int| 0 <= i < v.len() && #[trigger] v[i].0 == name
}

/// The commands registered for `name`, if any (the last entry with that name).
pub open spec fn hook_lookup(v: HooksView, name: Seq<char>) -> Option<Seq<Seq<Seq<char>>>>
    decreases v.len(),
{
    if v.len() == 0 {
        None
    } else if v.last().0 == name {
        Some(v.last().1)
    } else {
        hook_lookup(v.drop_last(), name)
    }
}

/// The line `list` prints for the `i`-th command of hook `name`: `name[i]: argv...`.
pub open spec fn hook_line(name: Seq<char>, i: int, argv: Seq<Seq<char>>) -> Seq<char> {
    name + seq!['['] + decimal(i as nat) + seq![']', ':', ' '] + join(argv, seq![' '])
}

/// The lines of one hook.
pub open spec fn hook_lines(name: Seq<char>, cmds: Seq<Seq<Seq<char>>>) -> Seq<Seq<char>> {
    Seq::new(cmds.len(), |i: int| hook_line(name, i, cmds[i]))
}

/// The lines of all hooks, in store order.
pub open spec fn list_lines(v: HooksView) -> Seq<Seq<char>>
    decreases v.len(),
{
    if v.len() == 0 {
        Seq::empty()
    } else {
        list_lines(v.drop_last()) + hook_lines(v.last().0, v.last().1)
    }
}

proof fn lemma_lookup_at(v: HooksView, i: int)
    requires
        hooks_sorted(v),
        0 <= i < v.len(),
    ensures
        hook_lookup(v, v[i].0) == Some(v[i].1),
    decreases v.len(),
{
    if i != v.len() - 1 {
        assert(seq_less(v[i].0, v[v.len() - 1].0));
        lemma_seq_less_total(v[i].0, v[i].0);
        assert(v.last().0 != v[i].0);
        let w = v.drop_last();
        assert(hooks_sorted(w));
        assert(w[i] == v[i]);
        lemma_lookup_at(w, i);
    }
}

proof fn lemma_lookup_absent(v: HooksView, name: Seq<char>)
    requires
        forall|i: int| 0 <= i < v.len() ==> #[trigger] v[i].0 != name,
    ensures
        hook_lookup(v, name) is None,
    decreases v.len(),
{
    if v.len() > 0 {
        let w = v.drop_last();
        assert(v.last().0 != name);
        assert forall|i: int| 0 <= i < w.len() implies #[trigger] w[i].0 != name by {
            assert(w[i] == v[i]);
        }
        lemma_lookup_absent(w, name);
    }
}

impl HookEntry {
    pub closed spec fn view(&self) -> (Seq<char>, Seq<Seq<Seq<char>>>) {
        (self.name@, commands_view(self.commands@))
    }
}

impl View for HookStore {
    type V = HooksView;

    closed spec fn view(&self) -> HooksView {
        self.hooks@.map_values(|e: HookEntry| e.view())
    }
}

impl HookStore {
    #[verifier::type_invariant]
    closed spec fn wf(&self) -> bool {
        hooks_sorted(self@)
    }

    /// Create an empty hook store.
    pub fn new() -> (s: Self)
        ensures
            s@ == Seq::<(Seq<char>, Seq<Seq<Seq<char>>>)>::empty(),
    {
        let s = HookStore { hooks: Vec::new() };
        assert(s@ =~= Seq::<(Seq<char>, Seq<Seq<Seq<char>>>)>::empty());
        s
    }

    /// Position of `name`, or where it would be inserted to keep names sorted.
    fn locate(&self, name: &[char]) -> (r: (bool, usize))
        ensures
            r.1 <= self@.len(),
            forall|k: int| 0 <= k < r.1 ==> seq_less(#[trigger] self@[k].0, name@),
            r.0 ==> r.1 < self@.len() && self@[r.1 as int].0 == name@,
            !r.0 ==> forall|k: int| r.1 <= k < self@.len() ==> seq_less(name@, #[trigger] self@[k].0),
            !r.0 ==> forall|k: int| 0 <= k < self@.len() ==> #[trigger] self@[k].0 != name@,
    {
        proof {
            use_type_invariant(self);
        }
        let mut k: usize = 0;
        while k < self.hooks.len()
            invariant
                hooks_sorted(self@),
                self@.len() == self.hooks@.len(),
                k <= self@.len(),
                forall|j: int| 0 <= j < k ==> seq_less(#[trigger] self@[j].0, name@),
            decreases self.hooks@.len() - k,
        {
            let cur = str_chars(self.hooks[k].name.as_str());
            assert(self@[k as int].0 == cur@);
            if !chars_less(cur.as_slice(), name) {
                let eq = chars_eq(cur.as_slice(), name);
                if eq {
                    return (true, k);
                }
                proof {
                    lemma_seq_less_total(cur@, name@);
                    assert forall|j: int| k <= j < self@.len() implies seq_less(name@, #[trigger] self@[j].0) by {
                        if j > k {
                            lemma_seq_less_trans(name@, self@[k as int].0, self@[j].0);
                        }
                    }
                    assert forall|j: int| 0 <= j < self@.len() implies #[trigger] self@[j].0 != name@ by {
                        if j >= k {
                            lemma_seq_less_total(name@, name@);
                        } else {
                            lemma_seq_less_total(name@, name@);
                        }
                    }
                }
                return (false, k);
            }
            k = k + 1;
        }
        proof {
            assert forall|j: int| 0 <= j < self@.len() implies #[trigger] self@[j].0 != name@ by {
                lemma_seq_less_total(name@, name@);
            }
        }
        (false, k)
    }

    /// Add a command to a hook. The command will be appended to the existing list.
    pub fn add(&mut self, hook_name: &str, argv: Vec<String>)
        ensures
            hook_lookup(final(self)@, hook_name@) == Some(
                match hook_lookup(old(self)@, hook_name@) {
                    Some(c) => c,
                    None => Seq::empty(),
                }.push(argv_view(argv)),
            ),
            forall|n: Seq<char>| n != hook_name@ ==> hook_lookup(final(self)@, n) == hook_lookup(old(self)@, n),
    {
        self.insert_command(hook_name, argv, true);
    }

    /// Set a hook, replacing all existing commands for that hook name.
    pub fn set(&mut self, hook_name: &str, argv: Vec<String>)
        ensures
            hook_lookup(final(self)@, hook_name@) == Some(seq![argv_view(argv)]),
            forall|n: Seq<char>| n != hook_name@ ==> hook_lookup(final(self)@, n) == hook_lookup(old(self)@, n),
    {
        self.insert_command(hook_name, argv, false);
    }

    /// Appends `argv` to the hook's list (`keep`) or makes it the only command.
    fn insert_command(&mut self, hook_name: &str, argv: Vec<String>, keep: bool)
        ensures
            hook_lookup(final(self)@, hook_name@) == Some(
                if keep {
                    match hook_lookup(old(self)@, hook_name@) {
                        Some(c) => c,
                        None => Seq::empty(),
                    }
                } else {
                    Seq::empty()
                }.push(argv_view(argv)),
            ),
            forall|n: Seq<char>| n != hook_name@ ==> hook_lookup(final(self)@, n) == hook_lookup(old(self)@, n),
    {
        proof {
            use_type_invariant(&*self);
        }
        let name = str_chars(hook_name);
        let (found, pos) = self.locate(name.as_slice());
        let ghost old_v = self@;
        let ghost av = argv_view(argv);
        if found {
            let mut hooks: Vec<HookEntry> = Vec::new();
            std::mem::swap(&mut hooks, &mut self.hooks);
            let mut entry = hooks.remove(pos);
            let ghost old_cmds = entry.view().1;
            if !keep {
                entry.commands = Vec::new();
            }
            entry.commands.push(argv);
            assert(commands_view(entry.commands@) =~= (if keep { old_cmds } else { Seq::empty() }).push(av));
            hooks.insert(pos, entry);
            let ghost new_v = hooks@.map_values(|e: HookEntry| e.view());
            assert(new_v =~= old_v.update(pos as int, (hook_name@, (if keep { old_cmds } else { Seq::empty() }).push(av))));
            proof {
                lemma_lookup_at(old_v, pos as int);
                assert(hooks_sorted(new_v));
                lemma_lookup_at(new_v, pos as int);
                assert forall|n: Seq<char>| n != hook_name@ implies hook_lookup(new_v, n) == hook_lookup(old_v, n) by {
                    if has_hook(old_v, n) {
                        let j = choose|j: int| 0 <= j < old_v.len() && #[trigger] old_v[j].0 == n;
                        lemma_lookup_at(old_v, j);
                        lemma_lookup_at(new_v, j);
                    } else {
                        assert forall|j: int| 0 <= j < new_v.len() implies #[trigger] new_v[j].0 != n by {
                            if j != pos { assert(new_v[j] == old_v[j]); }
                        }
                        lemma_lookup_absent(new_v, n);
                        lemma_lookup_absent(old_v, n);
                    }
                }
            }
            self.hooks = hooks;
        } else {
            let entry = HookEntry {
                name: string_from_chars(name.as_slice()),
                commands: vec![argv],
            };
            assert(commands_view(entry.commands@) =~= seq![av]);
            assert(seq![av] =~= Seq::<Seq<Seq<char>>>::empty().push(av));
            let mut hooks: Vec<HookEntry> = Vec::new();
            std::mem::swap(&mut hooks, &mut self.hooks);
            hooks.insert(pos, entry);
            let ghost new_v = hooks@.map_values(|e: HookEntry| e.view());
            assert(new_v =~= old_v.insert(pos as int, (hook_name@, seq![av])));
            proof {
                lemma_lookup_absent(old_v, hook_name@);
                assert forall|i: int, j: int| 0 <= i < j < new_v.len() implies seq_less(#[trigger] new_v[i].0, #[trigger] new_v[j].0) by {
                    if j < pos {
                    } else if j == pos {
                    } else if i < pos {
                        lemma_seq_less_trans(new_v[i].0, hook_name@, new_v[j].0);
                    } else if i == pos {
                    } else {
                        assert(new_v[i] == old_v[i - 1]);
                        assert(new_v[j] == old_v[j - 1]);
                    }
                }
                lemma_lookup_at(new_v, pos as int);
                assert forall|n: Seq<char>| n != hook_name@ implies hook_lookup(new_v, n) == hook_lookup(old_v, n) by {
                    if has_hook(old_v, n) {
                        let j = choose|j: int| 0 <= j < old_v.len() && #[trigger] old_v[j].0 == n;
                        lemma_lookup_at(old_v, j);
                        if j < pos {
                            lemma_lookup_at(new_v, j);
                        } else {
                            assert(new_v[j + 1] == old_v[j]);
                            lemma_lookup_at(new_v, j + 1);
                        }
                    } else {
                        assert forall|j: int| 0 <= j < new_v.len() implies #[trigger] new_v[j].0 != n by {
                            if j < pos {
                                assert(new_v[j] == old_v[j]);
                            } else if j > pos {
                                assert(new_v[j] == old_v[j - 1]);
                            }
                        }
                        lemma_lookup_absent(new_v, n);
                        lemma_lookup_absent(old_v, n);
                    }
                }
            }
            self.hooks = hooks;
        }
    }

    /// Remove all commands for a hook name.
    pub fn remove(&mut self, hook_name: &str) -> (r: bool)
        ensures
            r == (hook_lookup(old(self)@, hook_name@) is Some),
            hook_lookup(final(self)@, hook_name@) is None,
            forall|n: Seq<char>| n != hook_name@ ==> hook_lookup(final(self)@, n) == hook_lookup(old(self)@, n),
    {
        proof {
            use_type_invariant(&*self);
        }
        let name = str_chars(hook_name);
        let (found, pos) = self.locate(name.as_slice());
        let ghost old_v = self@;
        if !found {
            proof {
                lemma_lookup_absent(old_v, hook_name@);
            }
            return false;
        }
        let mut hooks: Vec<HookEntry> = Vec::new();
            std::mem::swap(&mut hooks, &mut self.hooks);
        let _removed = hooks.remove(pos);
        let ghost new_v = hooks@.map_values(|e: HookEntry| e.view());
        assert(new_v =~= old_v.remove(pos as int));
        proof {
            lemma_lookup_at(old_v, pos as int);
            assert forall|i: int, j: int| 0 <= i < j < new_v.len() implies seq_less(#[trigger] new_v[i].0, #[trigger] new_v[j].0) by {
                let oi = if i < pos { i } else { i + 1 };
                let oj = if j < pos { j } else { j + 1 };
                assert(new_v[i] == old_v[oi]);
                assert(new_v[j] == old_v[oj]);
            }
            assert forall|j: int| 0 <= j < new_v.len() implies #[trigger] new_v[j].0 != hook_name@ by {
                let oj = if j < pos { j } else { j + 1 };
                assert(new_v[j] == old_v[oj]);
                lemma_seq_less_total(hook_name@, hook_name@);
            }
            lemma_lookup_absent(new_v, hook_name@);
            assert forall|n: Seq<char>| n != hook_name@ implies hook_lookup(new_v, n) == hook_lookup(old_v, n) by {
                if has_hook(old_v, n) {
                    let j = choose|j: int| 0 <= j < old_v.len() && #[trigger] old_v[j].0 == n;
                    lemma_lookup_at(old_v, j);
                    if j < pos {
                        lemma_lookup_at(new_v, j);
                    } else {
                        assert(j != pos);
                        assert(new_v[j - 1] == old_v[j]);
                        lemma_lookup_at(new_v, j - 1);
                    }
                } else {
                    assert forall|j: int| 0 <= j < new_v.len() implies #[trigger] new_v[j].0 != n by {
                        let oj = if j < pos { j } else { j + 1 };
                        assert(new_v[j] == old_v[oj]);
                    }
                    lemma_lookup_absent(new_v, n);
                    lemma_lookup_absent(old_v, n);
                }
            }
        }
        self.hooks = hooks;
        true
    }

    /// Get the commands registered for a hook.
    pub fn get(&self, hook_name: &str) -> (r: Option<&[Vec<String>]>)
        ensures
            match hook_lookup(self@, hook_name@) {
                Some(c) => r matches Some(s) && commands_view(s@) == c,
                None => r is None,
            },
    {
        proof {
            use_type_invariant(self);
        }
        let name = str_chars(hook_name);
        let (found, pos) = self.locate(name.as_slice());
        if found {
            proof {
                lemma_lookup_at(self@, pos as int);
            }
            Some(self.hooks[pos].commands.as_slice())
        } else {
            proof {
                lemma_lookup_absent(self@, hook_name@);
            }
            None
        }
    }

    /// List all hooks as formatted strings, ordered by hook name, then by
    /// position within the hook: `name[i]: command args...`.
    pub fn list(&self) -> (r: Vec<String>)
        ensures
            strings_view(r@) == list_lines(self@),
            hooks_sorted(self@),
    {
        proof {
            use_type_invariant(self);
        }
        let mut result: Vec<String> = Vec::new();
        let mut k: usize = 0;
        while k < self.hooks.len()
            invariant
                k <= self.hooks@.len(),
                self@.len() == self.hooks@.len(),
                strings_view(result@) == list_lines(self@.subrange(0, k as int)),
            decreases self.hooks@.len() - k,
        {
            let entry = &self.hooks[k];
            let ghost before = result@;
            let mut i: usize = 0;
            while i < entry.commands.len()
                invariant
                    i <= entry.commands@.len(),
                    entry == self.hooks@[k as int],
                    result@.len() == before.len() + i,
                    strings_view(result@) == strings_view(before) + hook_lines(
                        entry.view().0,
                        entry.view().1,
                    ).subrange(0, i as int),
                decreases entry.commands@.len() - i,
            {
                let mut line = entry.name.clone();
                push_char(&mut line, '[');
                let num = usize_to_string(i);
                push_all(&mut line, num.as_str());
                push_all(&mut line, "]: ");
                let cmd = join_strings(entry.commands[i].as_slice(), " ");
                push_all(&mut line, cmd.as_str());
                proof {
                    reveal_strlit("]: ");
                    reveal_strlit(" ");
                    assert(" "@ =~= seq![' ']);
                    assert(line@ =~= hook_line(entry.view().0, i as int, entry.view().1[i as int]));
                }
                let ghost prev = result@;
                let ghost lv = line@;
                result.push(line);
                proof {
                    assert(strings_view(result@) =~= strings_view(prev).push(lv));
                    assert(hook_lines(entry.view().0, entry.view().1).subrange(0, i + 1) =~= hook_lines(
                        entry.view().0,
                        entry.view().1,
                    ).subrange(0, i as int).push(lv));
                    assert(strings_view(result@) =~= strings_view(before) + hook_lines(
                        entry.view().0,
                        entry.view().1,
                    ).subrange(0, i + 1));
                }
                i = i + 1;
            }
            proof {
                let sub = self@.subrange(0, k + 1);
                assert(sub.drop_last() =~= self@.subrange(0, k as int));
                assert(sub.last() == entry.view());
                assert(hook_lines(entry.view().0, entry.view().1).subrange(0, i as int) =~= hook_lines(entry.view().0, entry.view().1));
            }
            k = k + 1;
        }
        assert(self@.subrange(0, self@.len() as int) =~= self@);
        result
    }
}

} // verus!
