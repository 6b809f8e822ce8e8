//! The environment builder: the variables that a script is run with, made of
//! the request's headers, its method and its path.

use vstd::prelude::*;
use crate::bytes::{ascii, ascii_bytes, bytes_eq, copy_bytes};

verus! {

/// One header line of a request: its name as it was received, and its value.
#[derive(Debug, PartialEq, Eq)]
pub struct Header {
    pub name: Vec<u8>,
    pub value: Vec<u8>,
}

/// A header line as a mathematical value.
pub struct HeaderView {
    pub name: Seq<u8>,
    pub value: Seq<u8>,
}

impl View for Header {
    type V = HeaderView;

    open spec fn view(&self) -> HeaderView {
        HeaderView { name: self.name@, value: self.value@ }
    }
}

/// The header lines of a list as mathematical values.
pub open spec fn header_views(headers: Seq<Header>) -> Seq<HeaderView> {
    Seq::new(headers.len(), |i: int| headers[i]@)
}

/// One variable of a process environment.
#[derive(Debug, PartialEq, Eq)]
pub struct EnvVar {
    pub name: Vec<u8>,
    pub value: Vec<u8>,
}

/// Whether a value can stand in a process environment, which holds strings
/// that end at the first zero byte: a value that holds a zero byte cannot.
pub open spec fn representable(value: Seq<u8>) -> bool {
    forall|i: int| 0 <= i < value.len() ==> value[i] != 0
}

/// The variables that a run of header lines leaves, taken in order: each line
/// whose value is representable sets the variable of its name, so that of two
/// lines with one name the later one stays. A line whose value is not
/// representable changes nothing. Names are taken as they were received, and
/// two names that differ in the case of a letter are two variables.
pub open spec fn header_variables(headers: Seq<Header>) -> Map<Seq<u8>, Seq<u8>>
    decreases headers.len(),
{
    if headers.len() == 0 {
        Map::empty()
    } else {
        let before = header_variables(headers.drop_last());
        let line = headers.last();
        if representable(line.value@) {
            before.insert(line.name@, line.value@)
        } else {
            before
        }
    }
}

/// The environment of a script: the variables of the headers, then `Method`
/// and `Path`, which win over a header of the same name.
pub open spec fn environment_of(headers: Seq<Header>, method: Seq<u8>, path: Seq<u8>) -> Map<
    Seq<u8>,
    Seq<u8>,
> {
    header_variables(headers).insert(ascii("Method"@), method).insert(ascii("Path"@), path)
}

/// `Method` and `Path` are set in every environment, to the method and the
/// path of the request, whatever the headers are named.
pub proof fn lemma_method_and_path_win(headers: Seq<Header>, method: Seq<u8>, path: Seq<u8>)
    ensures
        environment_of(headers, method, path).contains_pair(ascii("Method"@), method),
        environment_of(headers, method, path).contains_pair(ascii("Path"@), path),
{
    reveal_strlit("Method");
    reveal_strlit("Path");
    assert(ascii("Method"@).len() == 6);
}

/// A name other than `Method` and `Path` is set in the environment as the
/// headers set it, and no other name is set: nothing reaches a script but
/// what the request holds.
pub proof fn lemma_other_names_come_from_headers(
    headers: Seq<Header>,
    method: Seq<u8>,
    path: Seq<u8>,
    name: Seq<u8>,
)
    requires
        name != ascii("Method"@),
        name != ascii("Path"@),
    ensures
        environment_of(headers, method, path).contains_key(name) == header_variables(
            headers,
        ).contains_key(name),
        environment_of(headers, method, path)[name] == header_variables(headers)[name],
{
}

/// Whether the header line at index `i` sets the variable `name`: it has that
/// name, byte for byte, and a representable value.
pub open spec fn sets(headers: Seq<Header>, name: Seq<u8>, i: int) -> bool {
    0 <= i < headers.len() && headers[i].name@ == name && representable(headers[i].value@)
}

/// The headers leave a variable of a name exactly where one of them sets it.
pub proof fn lemma_header_names(headers: Seq<Header>, name: Seq<u8>)
    ensures
        header_variables(headers).contains_key(name) <==> exists|i: int|
            sets(headers, name, i),
    decreases headers.len(),
{
    if headers.len() == 0 {
        assert forall|i: int| !sets(headers, name, i) by {}
    } else {
        let before = headers.drop_last();
        let last = headers.len() - 1;
        lemma_header_names(before, name);
        if header_variables(headers).contains_key(name) {
            if header_variables(before).contains_key(name) {
                let i = choose|i: int| sets(before, name, i);
                assert(sets(headers, name, i));
            } else {
                assert(sets(headers, name, last));
            }
        }
        if exists|i: int| sets(headers, name, i) {
            let i = choose|i: int| sets(headers, name, i);
            if i < last {
                assert(sets(before, name, i));
            }
        }
    }
}

/// Of the headers that set one name the last one wins: the variable has the
/// value of the header that sets it and that no later header sets again.
pub proof fn lemma_last_header_wins(headers: Seq<Header>, name: Seq<u8>, i: int)
    requires
        sets(headers, name, i),
        forall|j: int| i < j < headers.len() ==> !sets(headers, name, j),
    ensures
        header_variables(headers).contains_pair(name, headers[i].value@),
    decreases headers.len(),
{
    let before = headers.drop_last();
    let last = headers.len() - 1;
    if i < last {
        assert(!sets(headers, name, last));
        assert(sets(before, name, i));
        assert forall|j: int| i < j < before.len() implies !sets(before, name, j) by {
            assert(!sets(headers, name, j));
        }
        lemma_last_header_wins(before, name, i);
    }
}

/// The indices of the headers that the environment leaves out because their
/// values are not representable, in rising order.
pub fn left_out(headers: &[Header]) -> (out: Vec<usize>)
    ensures
        forall|k: int| 0 <= k < out@.len() ==> out@[k] < headers@.len() && !representable(
            headers@[#[trigger] out@[k] as int].value@,
        ),
        forall|k: int, l: int| 0 <= k < l < out@.len() ==> out@[k] < out@[l],
        forall|i: int|
            0 <= i < headers@.len() && !representable((#[trigger] headers@[i]).value@)
                ==> out@.contains(i as usize),
{
    let mut out: Vec<usize> = Vec::new();
    let mut i: usize = 0;
    while i < headers.len()
        invariant
            i <= headers.len(),
            forall|k: int| 0 <= k < out@.len() ==> out@[k] < i && !representable(
                headers@[#[trigger] out@[k] as int].value@,
            ),
            forall|k: int, l: int| 0 <= k < l < out@.len() ==> out@[k] < out@[l],
            forall|j: int|
                0 <= j < i && !representable((#[trigger] headers@[j]).value@) ==> out@.contains(
                    j as usize,
                ),
        decreases headers.len() - i,
    {
        if !is_representable(headers[i].value.as_slice()) {
            let ghost before = out@;
            out.push(i);
            proof {
                assert(out@[before.len() as int] == i);
                assert forall|j: int|
                    0 <= j < i + 1 && !representable(
                        (#[trigger] headers@[j]).value@,
                    ) implies out@.contains(j as usize) by {
                    if j < i {
                        let k = choose|k: int| 0 <= k < before.len() && before[k] == j as usize;
                        assert(out@[k] == j as usize);
                    }
                }
            }
        }
        i += 1;
    }
    out
}

spec fn holds(vars: Seq<EnvVar>, name: Seq<u8>) -> bool {
    exists|i: int| 0 <= i < vars.len() && #[trigger] vars[i].name@ == name
}

spec fn position(vars: Seq<EnvVar>, name: Seq<u8>) -> int {
    choose|i: int| 0 <= i < vars.len() && #[trigger] vars[i].name@ == name
}

spec fn distinct(vars: Seq<EnvVar>) -> bool {
    forall|i: int, j: int|
        0 <= i < j < vars.len() ==> #[trigger] vars[i].name@ != #[trigger] vars[j].name@
}

spec fn as_map(vars: Seq<EnvVar>) -> Map<Seq<u8>, Seq<u8>> {
    Map::new(|name: Seq<u8>| holds(vars, name), |name: Seq<u8>| vars[position(vars, name)].value@)
}

proof fn lemma_position(vars: Seq<EnvVar>, i: int)
    requires
        distinct(vars),
        0 <= i < vars.len(),
    ensures
        holds(vars, vars[i].name@),
        position(vars, vars[i].name@) == i,
        as_map(vars).contains_key(vars[i].name@),
        as_map(vars)[vars[i].name@] == vars[i].value@,
{
    let p = position(vars, vars[i].name@);
    assert(vars[p].name@ == vars[i].name@);
}

/// A list of variables with distinct names, with the variable at `at` replaced
/// by one of the same name, or with a variable of a new name added at its end,
/// is such a list again, and stands for the map with that variable set.
proof fn lemma_put(before: Seq<EnvVar>, after: Seq<EnvVar>, at: int)
    requires
        distinct(before),
        0 <= at <= before.len(),
        at < before.len() ==> after == before.update(at, after[at]) && before[at].name@
            == after[at].name@,
        at == before.len() ==> after == before.push(after[at]) && !holds(
            before,
            after[at].name@,
        ),
    ensures
        distinct(after),
        as_map(after) == as_map(before).insert(after[at].name@, after[at].value@),
{
    let n = after[at].name@;
    assert forall|a: int| 0 <= a < before.len() implies (#[trigger] after[a]).name@
        == before[a].name@ by {}
    assert(distinct(after));
    assert forall|k: Seq<u8>| holds(after, k) == (holds(before, k) || k == n) by {
        if holds(before, k) {
            let p = position(before, k);
            assert(after[p].name@ == k);
        }
    }
    assert forall|k: Seq<u8>| holds(after, k) && k != n implies as_map(after)[k] == as_map(
        before,
    )[k] by {
        let p = position(after, k);
        lemma_position(after, p);
        lemma_position(before, p);
    }
    lemma_position(after, at);
}

/// Sets the variable `name` in a list of variables with distinct names.
fn put(vars: &mut Vec<EnvVar>, name: Vec<u8>, value: Vec<u8>)
    requires
        distinct(old(vars)@),
    ensures
        distinct(final(vars)@),
        as_map(final(vars)@) == as_map(old(vars)@).insert(name@, value@),
{
    let ghost before = vars@;
    let mut i: usize = 0;
    while i < vars.len()
        invariant
            i <= vars.len(),
            vars@ == before,
            before == old(vars)@,
            distinct(before),
            forall|j: int| 0 <= j < i ==> #[trigger] before[j].name@ != name@,
        decreases vars.len() - i,
    {
        if bytes_eq(vars[i].name.as_slice(), name.as_slice()) {
            vars.set(i, EnvVar { name, value });
            proof {
                lemma_put(before, vars@, i as int);
            }
            return;
        }
        i += 1;
    }
    vars.push(EnvVar { name, value });
    proof {
        lemma_put(before, vars@, before.len() as int);
    }
}

/// A set of environment variables, no two of them with the same name. Its view
/// is the map from each name to its value.
#[derive(Debug)]
pub struct Environment {
    vars: Vec<EnvVar>,
}

impl View for Environment {
    type V = Map<Seq<u8>, Seq<u8>>;

    closed spec fn view(&self) -> Map<Seq<u8>, Seq<u8>> {
        as_map(self.vars@)
    }
}

impl Environment {
    #[verifier::type_invariant]
    spec fn names_differ(self) -> bool {
        distinct(self.vars@)
    }

    /// The environment without any variable.
    pub fn new() -> (env: Environment)
        ensures
            env@ == Map::<Seq<u8>, Seq<u8>>::empty(),
    {
        Environment { vars: Vec::new() }
    }

    /// Sets the variable `name` to `value`, in place of the value it had.
    pub fn set(&mut self, name: Vec<u8>, value: Vec<u8>)
        ensures
            final(self)@ == old(self)@.insert(name@, value@),
    {
        proof {
            use_type_invariant(&*self);
        }
        let mut vars: Vec<EnvVar> = Vec::new();
        core::mem::swap(&mut self.vars, &mut vars);
        put(&mut vars, name, value);
        core::mem::swap(&mut self.vars, &mut vars);
    }

    /// The value of the variable `name`, where it is set.
    pub fn get(&self, name: &[u8]) -> (out: Option<Vec<u8>>)
        ensures
            out is Some == self@.contains_key(name@),
            out is Some ==> out->0@ == self@[name@],
    {
        proof {
            use_type_invariant(self);
        }
        let mut i: usize = 0;
        while i < self.vars.len()
            invariant
                i <= self.vars.len(),
                distinct(self.vars@),
                forall|j: int| 0 <= j < i ==> #[trigger] self.vars@[j].name@ != name@,
            decreases self.vars.len() - i,
        {
            if bytes_eq(self.vars[i].name.as_slice(), name) {
                proof {
                    lemma_position(self.vars@, i as int);
                }
                return Some(copy_bytes(self.vars[i].value.as_slice()));
            }
            i += 1;
        }
        None
    }

    /// The variables, each once, in no order that callers can rely on.
    pub fn vars(&self) -> (out: &Vec<EnvVar>)
        ensures
            forall|i: int|
                0 <= i < out@.len() ==> self@.contains_pair(
                    (#[trigger] out@[i]).name@,
                    out@[i].value@,
                ),
            forall|name: Seq<u8>| #[trigger]
                self@.contains_key(name) ==> exists|i: int|
                    0 <= i < out@.len() && #[trigger] out@[i].name@ == name,
            forall|i: int, j: int|
                0 <= i < j < out@.len() ==> #[trigger] out@[i].name@ != #[trigger] out@[j].name@,
    {
        proof {
            use_type_invariant(self);
            assert forall|i: int| 0 <= i < self.vars@.len() implies self@.contains_pair(
                (#[trigger] self.vars@[i]).name@,
                self.vars@[i].value@,
            ) by {
                lemma_position(self.vars@, i);
            }
        }
        &self.vars
    }
}

/// Builds the environment of a script from the request's headers, method and
/// path.
pub fn build_environment(headers: &[Header], method: &[u8], path: &[u8]) -> (env: Environment)
    ensures
        env@ == environment_of(headers@, method@, path@),
{
    let mut env: Environment = Environment::new();
    let mut i: usize = 0;
    while i < headers.len()
        invariant
            i <= headers.len(),
            env@ == header_variables(headers@.take(i as int)),
        decreases headers.len() - i,
    {
        proof {
            assert(headers@.take(i + 1).drop_last() =~= headers@.take(i as int));
        }
        if is_representable(headers[i].value.as_slice()) {
            env.set(
                copy_bytes(headers[i].name.as_slice()),
                copy_bytes(headers[i].value.as_slice()),
            );
        }
        i += 1;
    }
    proof {
        assert(headers@.take(headers.len() as int) =~= headers@);
        reveal_strlit("Method");
        reveal_strlit("Path");
    }
    env.set(ascii_bytes("Method"), copy_bytes(method));
    env.set(ascii_bytes("Path"), copy_bytes(path));
    env
}

/// Whether a value can stand in a process environment.
pub fn is_representable(value: &[u8]) -> (out: bool)
    ensures
        out == representable(value@),
{
    let mut i: usize = 0;
    while i < value.len()
        invariant
            i <= value.len(),
            forall|j: int| 0 <= j < i ==> value@[j] != 0,
        decreases value.len() - i,
    {
        if value[i] == 0 {
            return false;
        }
        i += 1;
    }
    true
}

} // verus!
