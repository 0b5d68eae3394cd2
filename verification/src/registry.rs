//! Which built-in modules an engine is given, with or without a sandbox.
use vstd::prelude::*;

verus! {

/// A built-in module of the language.
#[derive(Clone, Copy, Debug, PartialEq, Eq, Structural)]
pub enum BuiltinModule {
    HashMaps,
    HashSets,
    Lists,
    Strings,
    Vectors,
    Streams,
    Identity,
    Numbers,
    Equality,
    Comparison,
    Transducers,
    Symbols,
    Io,
    Ports,
    Fs,
    Meta,
    Json,
    Constants,
    Syntax,
    Process,
    Results,
    Options,
    TypeIds,
    Prelude,
    Time,
    Random,
    Threading,
    Bytevectors,
    Git,
    Tcp,
    Http,
    Polling,
    SandboxedFs,
    PortsWithoutFs,
    SandboxedPrelude,
    MutableVectors,
    PrivateReader,
    ImmutableVectors,
}

/// The modules every engine is given, in the order they are registered.
pub open spec fn common_modules() -> Seq<BuiltinModule> {
    seq![
        BuiltinModule::HashMaps,
        BuiltinModule::HashSets,
        BuiltinModule::Lists,
        BuiltinModule::Strings,
        BuiltinModule::Vectors,
        BuiltinModule::Streams,
        BuiltinModule::Identity,
        BuiltinModule::Numbers,
        BuiltinModule::Equality,
        BuiltinModule::Comparison,
        BuiltinModule::Transducers,
        BuiltinModule::Symbols,
        BuiltinModule::Io,
        BuiltinModule::Ports,
        BuiltinModule::Fs,
        BuiltinModule::Meta,
        BuiltinModule::Json,
        BuiltinModule::Constants,
        BuiltinModule::Syntax,
        BuiltinModule::Process,
        BuiltinModule::Results,
        BuiltinModule::Options,
        BuiltinModule::TypeIds,
        BuiltinModule::Prelude,
        BuiltinModule::Time,
        BuiltinModule::Random,
        BuiltinModule::Threading,
        BuiltinModule::Bytevectors,
        BuiltinModule::Git,
    ]
}

/// The modules only an engine outside a sandbox is given: network sockets, HTTP and polling.
pub open spec fn unsandboxed_modules() -> Seq<BuiltinModule> {
    seq![
        BuiltinModule::Tcp,
        BuiltinModule::Http,
        BuiltinModule::Polling,
    ]
}

/// The modules a sandboxed engine is given in their place: a file system and ports that
/// cannot reach the disk, and the prelude that goes with them.
pub open spec fn sandboxed_modules() -> Seq<BuiltinModule> {
    seq![
        BuiltinModule::SandboxedFs,
        BuiltinModule::PortsWithoutFs,
        BuiltinModule::SandboxedPrelude,
    ]
}

/// The private modules, registered last.
pub open spec fn private_modules() -> Seq<BuiltinModule> {
    seq![
        BuiltinModule::MutableVectors,
        BuiltinModule::PrivateReader,
        BuiltinModule::ImmutableVectors,
    ]
}

/// The modules an engine is given, in order: the common ones, then those that depend on the
/// sandbox, then the private ones.
pub open spec fn module_plan(sandbox: bool) -> Seq<BuiltinModule> {
    common_modules() + (if sandbox {
        sandboxed_modules()
    } else {
        unsandboxed_modules()
    }) + private_modules()
}

fn push_all(v: &mut Vec<BuiltinModule>, ms: &[BuiltinModule])
    ensures
        final(v)@ == old(v)@ + ms@,
{
    let mut i: usize = 0;
    while i < ms.len()
        invariant
            i <= ms.len(),
            v@ == old(v)@ + ms@.subrange(0, i as int),
        decreases ms.len() - i,
    {
        v.push(ms[i]);
        proof {
            assert(ms@.subrange(0, i + 1) =~= ms@.subrange(0, i as int).push(ms@[i as int]));
        }
        i = i + 1;
    }
    assert(ms@.subrange(0, ms@.len() as int) =~= ms@);
}

/// The built-in modules an engine is given, in the order they are registered; a sandboxed
/// engine gets no network, HTTP or polling module, and a file system and ports without
/// the disk in their place.
pub fn builtin_modules(sandbox: bool) -> (r: Vec<BuiltinModule>)
    ensures
        r@ == module_plan(sandbox),
{
    let mut v: Vec<BuiltinModule> = Vec::new();
    let common = [BuiltinModule::HashMaps, BuiltinModule::HashSets, BuiltinModule::Lists, BuiltinModule::Strings, BuiltinModule::Vectors, BuiltinModule::Streams, BuiltinModule::Identity, BuiltinModule::Numbers, BuiltinModule::Equality, BuiltinModule::Comparison, BuiltinModule::Transducers, BuiltinModule::Symbols, BuiltinModule::Io, BuiltinModule::Ports, BuiltinModule::Fs, BuiltinModule::Meta, BuiltinModule::Json, BuiltinModule::Constants, BuiltinModule::Syntax, BuiltinModule::Process, BuiltinModule::Results, BuiltinModule::Options, BuiltinModule::TypeIds, BuiltinModule::Prelude, BuiltinModule::Time, BuiltinModule::Random, BuiltinModule::Threading, BuiltinModule::Bytevectors, BuiltinModule::Git];
    assert(common@ =~= common_modules());
    push_all(&mut v, &common);
    if sandbox {
        let extra = [BuiltinModule::SandboxedFs, BuiltinModule::PortsWithoutFs, BuiltinModule::SandboxedPrelude];
        assert(extra@ =~= sandboxed_modules());
        push_all(&mut v, &extra);
    } else {
        let extra = [BuiltinModule::Tcp, BuiltinModule::Http, BuiltinModule::Polling];
        assert(extra@ =~= unsandboxed_modules());
        push_all(&mut v, &extra);
    }
    let private = [BuiltinModule::MutableVectors, BuiltinModule::PrivateReader, BuiltinModule::ImmutableVectors];
    assert(private@ =~= private_modules());
    push_all(&mut v, &private);
    v
}

/// A sandboxed engine is given no module that reaches the network (sockets, HTTP, polling)
/// and gets the sandboxed file system; an engine outside a sandbox gets no sandboxed
/// module.
pub proof fn lemma_sandbox_modules(sandbox: bool)
    ensures
        sandbox ==> !module_plan(sandbox).contains(BuiltinModule::Tcp),
        sandbox ==> !module_plan(sandbox).contains(BuiltinModule::Http),
        sandbox ==> !module_plan(sandbox).contains(BuiltinModule::Polling),
        sandbox ==> module_plan(sandbox).contains(BuiltinModule::SandboxedFs),
        !sandbox ==> !module_plan(sandbox).contains(BuiltinModule::SandboxedFs),
        !sandbox ==> !module_plan(sandbox).contains(BuiltinModule::PortsWithoutFs),
        !sandbox ==> !module_plan(sandbox).contains(BuiltinModule::SandboxedPrelude),
        !sandbox ==> module_plan(sandbox).contains(BuiltinModule::Tcp),
{
    let p = module_plan(sandbox);
    if sandbox {
        assert(p[common_modules().len() as int] == BuiltinModule::SandboxedFs);
    } else {
        assert(p[common_modules().len() as int] == BuiltinModule::Tcp);
    }
    assert forall|i: int| 0 <= i < p.len() implies (sandbox ==> p[i] != BuiltinModule::Tcp
        && p[i] != BuiltinModule::Http && p[i] != BuiltinModule::Polling) && (!sandbox
        ==> p[i] != BuiltinModule::SandboxedFs && p[i] != BuiltinModule::PortsWithoutFs
        && p[i] != BuiltinModule::SandboxedPrelude) by {
        let c = common_modules().len() as int;
        if i < c {
            assert(p[i] == common_modules()[i]);
        } else if i < c + 3 {
            assert(p[i] == (if sandbox {
                sandboxed_modules()
            } else {
                unsandboxed_modules()
            })[i - c]);
        } else {
            assert(p[i] == private_modules()[i - c - 3]);
        }
    }
}

} // verus!
