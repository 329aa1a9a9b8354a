//! What a child process in a sandbox sees.
//!
//! The modules beside this one write the arguments and profiles that platforms take. Here they are read
//! as the platform reads them, and it is said what comes of that: what can be read, what can be
//! written, and what cannot.

use crate::execution::linux::{
    bwrap_arguments, binds, cut_off, masks, outside, readable, system_roots, trusted_place, writable,
    HostView, SearchDirectory,
};
use crate::execution::policy::{FilesystemPolicy, NetworkPolicy};
use crate::execution::resolve::ResolvedView;
use crate::execution::shell::CommandView;

use crate::path::{inside, parts, PathStyle};
use vstd::prelude::*;

verus! {

/// What a word means to bubblewrap.
pub ghost enum Word {
    /// Binds a source to a destination, for writing or not.
    Bind(bool),
    /// Puts an empty file system at a destination.
    Fresh,
    /// Makes what is at a destination read-only.
    Seal,
    /// Puts a file system of the kernel at a destination.
    Kernel,
    /// Sets the directory to start in.
    Start,
    /// Ends the options: the command follows.
    Run,
    /// Anything else, which stands alone.
    Flag,
}

/// What a word means to bubblewrap.
pub open spec fn word(w: Seq<char>) -> Word {
    if w == "--bind"@ {
        Word::Bind(true)
    } else if w == "--ro-bind"@ {
        Word::Bind(false)
    } else if w == "--tmpfs"@ {
        Word::Fresh
    } else if w == "--remount-ro"@ {
        Word::Seal
    } else if w == "--dev"@ || w == "--proc"@ {
        Word::Kernel
    } else if w == "--chdir"@ {
        Word::Start
    } else if w == "--"@ {
        Word::Run
    } else {
        Word::Flag
    }
}

/// How many words an option takes, itself included.
pub open spec fn width(w: Word) -> int {
    match w {
        Word::Bind(_) => 3,
        Word::Fresh => 2,
        Word::Seal => 2,
        Word::Kernel => 2,
        Word::Start => 2,
        Word::Run => 1,
        Word::Flag => 1,
    }
}

/// One thing that bubblewrap is told.
pub ghost enum Order {
    Bind { write: bool, source: Seq<char>, dest: Seq<char> },
    Fresh(Seq<char>),
    Seal(Seq<char>),
    Kernel(Seq<char>),
    Start(Seq<char>),
    Run(Seq<Seq<char>>),
    Flag(Seq<char>),
}

/// The first thing that bubblewrap is told.
pub open spec fn first_order(args: Seq<Seq<char>>) -> Order {
    match word(args[0]) {
        Word::Bind(write) => Order::Bind { write, source: args[1], dest: args[2] },
        Word::Fresh => Order::Fresh(args[1]),
        Word::Seal => Order::Seal(args[1]),
        Word::Kernel => Order::Kernel(args[1]),
        Word::Start => Order::Start(args[1]),
        Word::Run => Order::Run(args.skip(1)),
        Word::Flag => Order::Flag(args[0]),
    }
}

/// What bubblewrap is told, in order. Its arguments are read one option after the other, and what
/// follows the end of the options is the command.
pub open spec fn orders(args: Seq<Seq<char>>) -> Seq<Order>
    decreases args.len(),
{
    if args.len() == 0 || width(word(args[0])) > args.len() {
        Seq::empty()
    } else if word(args[0]) is Run {
        seq![first_order(args)]
    } else {
        seq![first_order(args)] + orders(args.skip(width(word(args[0]))))
    }
}

/// Whether arguments are whole options.
pub open spec fn whole(args: Seq<Seq<char>>) -> bool
    decreases args.len(),
{
    args.len() == 0 || (!(word(args[0]) is Run) && width(word(args[0])) <= args.len() && whole(
        args.skip(width(word(args[0]))),
    ))
}

/// Where an order puts something.
pub open spec fn dest_of(o: Order) -> Option<Seq<char>> {
    match o {
        Order::Bind { dest, .. } => Some(dest),
        Order::Fresh(dest) => Some(dest),
        Order::Seal(dest) => Some(dest),
        Order::Kernel(dest) => Some(dest),
        _ => None,
    }
}

/// Whether a path lies at or below a root.
pub open spec fn lies_below(path: Seq<char>, root: Seq<char>) -> bool {
    inside(PathStyle::Unix, parts(PathStyle::Unix, path), root)
}

/// The order that decides what is at a path: the last whose destination the path lies at or below,
/// which covers those before it.
pub open spec fn deciding(all: Seq<Order>, path: Seq<char>) -> Option<Order>
    decreases all.len(),
{
    if all.len() == 0 {
        None
    } else if dest_of(all.last()) matches Some(dest) && lies_below(path, dest) {
        Some(all.last())
    } else {
        deciding(all.drop_last(), path)
    }
}

/// Whether a path lies in one of some roots that are there.
pub open spec fn lies_in(path: Seq<char>, roots: Seq<Seq<char>>, there: Seq<Seq<char>>) -> bool {
    exists|i: int|
        0 <= i < roots.len() && there.contains(#[trigger] roots[i]) && lies_below(path, roots[i])
}

/// Whether a path lies at or below something that is to be hidden.
pub open spec fn is_hidden(path: Seq<char>, p: ResolvedView, host: HostView) -> bool {
    ||| lies_in(path, p.unreadable_roots, host.directories)
    ||| lies_in(path, p.unreadable_roots, host.others)
    ||| lies_in(path, p.sensitive_paths, host.directories)
    ||| lies_in(path, p.sensitive_paths, host.others)
}

proof fn lemma_words()
    ensures
        word("--bind"@) == Word::Bind(true),
        word("--ro-bind"@) == Word::Bind(false),
        word("--tmpfs"@) == Word::Fresh,
        word("--remount-ro"@) == Word::Seal,
        word("--dev"@) == Word::Kernel,
        word("--proc"@) == Word::Kernel,
        word("--chdir"@) == Word::Start,
        word("--"@) == Word::Run,
        word("--new-session"@) == Word::Flag,
        word("--die-with-parent"@) == Word::Flag,
        word("--unshare-user"@) == Word::Flag,
        word("--unshare-pid"@) == Word::Flag,
        word("--unshare-net"@) == Word::Flag,
{
    reveal_strlit("--ro-bind");
    reveal_strlit("--bind");
    reveal_strlit("--tmpfs");
    reveal_strlit("--remount-ro");
    reveal_strlit("--dev");
    reveal_strlit("--proc");
    reveal_strlit("--chdir");
    reveal_strlit("--");
    reveal_strlit("--new-session");
    reveal_strlit("--die-with-parent");
    reveal_strlit("--unshare-user");
    reveal_strlit("--unshare-pid");
    reveal_strlit("--unshare-net");
    assert("--ro-bind"@.len() == 9);
    assert("--bind"@.len() == 6);
    assert("--tmpfs"@.len() == 7);
    assert("--remount-ro"@.len() == 12);
    assert("--dev"@.len() == 5);
    assert("--proc"@.len() == 6);
    assert("--chdir"@.len() == 7);
    assert("--"@.len() == 2);
    assert("--new-session"@.len() == 13);
    assert("--die-with-parent"@.len() == 17);
    assert("--unshare-user"@.len() == 14);
    assert("--unshare-pid"@.len() == 13);
    assert("--unshare-net"@.len() == 13);
    assert("--proc"@[2] != "--bind"@[2]);
    assert("--chdir"@[2] != "--tmpfs"@[2]);
    assert("--unshare-pid"@[2] != "--new-session"@[2]);
    assert("--unshare-net"@[2] != "--new-session"@[2]);
    assert("--unshare-net"@[10] != "--unshare-pid"@[10]);
}

proof fn lemma_orders_add(a: Seq<Seq<char>>, b: Seq<Seq<char>>)
    requires
        whole(a),
    ensures
        orders(a + b) == orders(a) + orders(b),
        whole(b) ==> whole(a + b),
    decreases a.len(),
{
    if a.len() == 0 {
        assert(a + b =~= b);
        assert(orders(a) + orders(b) =~= orders(b));
    } else {
        let w = width(word(a[0]));
        assert((a + b)[0] == a[0]);
        assert((a + b).skip(w) =~= a.skip(w) + b);
        lemma_orders_add(a.skip(w), b);
        assert(first_order(a + b) == first_order(a));
        assert(orders(a + b) =~= orders(a) + orders(b));
    }
}

proof fn lemma_one_order(args: Seq<Seq<char>>)
    requires
        args.len() > 0,
        !(word(args[0]) is Run),
        args.len() == width(word(args[0])),
    ensures
        whole(args),
        orders(args) == seq![first_order(args)],
{
    let rest = args.skip(width(word(args[0])));
    assert(rest.len() == 0);
    assert(whole(rest));
    assert(orders(rest) =~= Seq::<Order>::empty());
    assert(orders(args) =~= seq![first_order(args)]);
}

proof fn lemma_deciding_add(a: Seq<Order>, b: Seq<Order>, path: Seq<char>)
    ensures
        deciding(a + b, path) == (if deciding(b, path) is Some {
            deciding(b, path)
        } else {
            deciding(a, path)
        }),
    decreases b.len(),
{
    if b.len() == 0 {
        assert(a + b =~= a);
    } else {
        assert((a + b).last() == b.last());
        assert((a + b).drop_last() =~= a + b.drop_last());
        lemma_deciding_add(a, b.drop_last(), path);
    }
}

proof fn lemma_lies_in_drop(path: Seq<char>, roots: Seq<Seq<char>>, there: Seq<Seq<char>>)
    requires
        roots.len() > 0,
    ensures
        lies_in(path, roots, there) <==> lies_in(path, roots.drop_last(), there) || (there.contains(
            roots.last(),
        ) && lies_below(path, roots.last())),
{
    let rest = roots.drop_last();
    if lies_in(path, roots, there) {
        let i = choose|i: int|
            0 <= i < roots.len() && there.contains(#[trigger] roots[i]) && lies_below(
                path,
                roots[i],
            );
        if i < rest.len() {
            assert(rest[i] == roots[i]);
        }
    }
    if lies_in(path, rest, there) {
        let i = choose|i: int|
            0 <= i < rest.len() && there.contains(#[trigger] rest[i]) && lies_below(path, rest[i]);
        assert(rest[i] == roots[i]);
    }
    assert(roots[roots.len() - 1] == roots.last());
}

spec fn bind_word(write: bool) -> Seq<char> {
    if write {
        "--bind"@
    } else {
        "--ro-bind"@
    }
}

/// Binds of paths to themselves: whole options, which decide exactly of what lies in a path that is
/// there.
proof fn lemma_binds(write: bool, paths: Seq<Seq<char>>, host: HostView, path: Seq<char>)
    ensures
        ({
            let made = binds(bind_word(write), paths, host);
            &&& whole(made)
            &&& deciding(orders(made), path) is Some <==> lies_in(path, paths, host.existing)
            &&& deciding(orders(made), path) matches Some(o) ==> (o matches Order::Bind {
                write: w,
                source,
                dest,
            } && w == write && source == dest && paths.contains(dest) && host.existing.contains(dest)
                && lies_below(path, dest))
            &&& forall|i: int|
                0 <= i < orders(made).len() ==> shows_the_host(#[trigger] orders(made)[i], write)
        }),
    decreases paths.len(),
{
    lemma_words();
    let option = bind_word(write);
    let made = binds(option, paths, host);
    if paths.len() == 0 {
        assert(orders(made) =~= Seq::<Order>::empty());
    } else {
        let rest = paths.drop_last();
        let last = paths.last();
        lemma_binds(write, rest, host, path);
        lemma_lies_in_drop(path, paths, host.existing);
        assert(forall|d: Seq<char>| rest.contains(d) ==> paths.contains(d)) by {
            assert forall|d: Seq<char>| rest.contains(d) implies paths.contains(d) by {
                let i = choose|i: int| 0 <= i < rest.len() && rest[i] == d;
                assert(paths[i] == d);
            }
        }
        assert(paths.contains(last)) by {
            assert(paths[paths.len() - 1] == last);
        }
        if host.existing.contains(last) {
            let before = binds(option, rest, host);
            let one = seq![option, last, last];
            lemma_one_order(one);
            lemma_orders_add(before, one);
            let o = Order::Bind { write, source: last, dest: last };
            assert(first_order(one) == o);
            lemma_deciding_add(orders(before), seq![o], path);
            assert(seq![o].drop_last() =~= Seq::<Order>::empty());
            assert(deciding(seq![o], path) == (if lies_below(path, last) {
                Some(o)
            } else {
                None
            })) by {
                assert(seq![o].last() == o);
                assert(deciding(Seq::<Order>::empty(), path) is None);
            }
            let all = orders(before) + seq![o];
            assert(orders(made) == all);
            assert forall|i: int| 0 <= i < all.len() implies shows_the_host(
                #[trigger] all[i],
                write,
            ) by {
                if i < orders(before).len() {
                    assert(all[i] == orders(before)[i]);
                }
            }
        }
    }
}

/// What hides paths: whole options, which decide exactly of what lies at or below them, and say that it
/// is empty or read-only.
proof fn lemma_masks(paths: Seq<Seq<char>>, host: HostView, path: Seq<char>)
    ensures
        whole(masks(paths, host)),
        deciding(orders(masks(paths, host)), path) is Some <==> lies_in(
            path,
            paths,
            host.directories,
        ) || lies_in(path, paths, host.others),
        deciding(orders(masks(paths, host)), path) matches Some(o) ==> shows_nothing(o),
        forall|i: int|
            0 <= i < orders(masks(paths, host)).len() ==> !is_write(
                #[trigger] orders(masks(paths, host))[i],
            ) && !is_flag(orders(masks(paths, host))[i]),
    decreases paths.len(),
{
    lemma_words();
    let made = masks(paths, host);
    if paths.len() == 0 {
        assert(orders(made) =~= Seq::<Order>::empty());
    } else {
        let rest = paths.drop_last();
        let last = paths.last();
        let before = masks(rest, host);
        lemma_masks(rest, host, path);
        lemma_lies_in_drop(path, paths, host.directories);
        lemma_lies_in_drop(path, paths, host.others);
        assert(deciding(Seq::<Order>::empty(), path) is None);
        if host.directories.contains(last) {
            let a = seq!["--tmpfs"@, last];
            let b = seq!["--remount-ro"@, last];
            lemma_one_order(a);
            lemma_one_order(b);
            lemma_orders_add(a, b);
            assert(a + b =~= seq!["--tmpfs"@, last, "--remount-ro"@, last]);
            lemma_orders_add(before, a + b);
            let x = Order::Fresh(last);
            let y = Order::Seal(last);
            assert(first_order(a) == x && first_order(b) == y);
            let both = seq![x] + seq![y];
            lemma_deciding_add(orders(before), both, path);
            lemma_deciding_add(seq![x], seq![y], path);
            assert(seq![x].drop_last() =~= Seq::<Order>::empty());
            assert(seq![y].drop_last() =~= Seq::<Order>::empty());
            assert(seq![x].last() == x && seq![y].last() == y);
            assert(orders(made) =~= orders(before) + both);
        } else if host.others.contains(last) {
            let a = seq!["--ro-bind"@, "/dev/null"@, last];
            lemma_one_order(a);
            lemma_orders_add(before, a);
            let x = Order::Bind { write: false, source: "/dev/null"@, dest: last };
            assert(first_order(a) == x);
            lemma_deciding_add(orders(before), seq![x], path);
            assert(seq![x].drop_last() =~= Seq::<Order>::empty());
            assert(seq![x].last() == x);
            assert(orders(made) =~= orders(before) + seq![x]);
        }
    }
}

/// Whether an order leaves nothing to be seen: an empty file system made read-only, or an empty file.
pub open spec fn shows_nothing(o: Order) -> bool {
    match o {
        Order::Seal(_) => true,
        Order::Bind { write, source, .. } => !write && source == "/dev/null"@,
        _ => false,
    }
}

/// Whether an order makes something writable.
pub open spec fn is_write(o: Order) -> bool {
    o matches Order::Bind { write, .. } && write
}

/// Whether an order is a flag.
pub open spec fn is_flag(o: Order) -> bool {
    o is Flag
}

/// Whether an order shows what the host has at its place, for writing or not.
pub open spec fn shows_the_host(o: Order, write: bool) -> bool {
    o matches Order::Bind { write: w, source, dest } && w == write && source == dest
}

/// What a child is told of its sandbox.
pub open spec fn told(
    command: CommandView,
    cwd: Seq<char>,
    p: ResolvedView,
    host: HostView,
) -> Seq<Order> {
    orders(bwrap_arguments(command, cwd, p, host))
}

proof fn lemma_flags(words: Seq<Seq<char>>)
    requires
        forall|i: int| 0 <= i < words.len() ==> word(#[trigger] words[i]) is Flag,
    ensures
        whole(words),
        orders(words) == words.map_values(|w: Seq<char>| Order::Flag(w)),
    decreases words.len(),
{
    if words.len() > 0 {
        let rest = words.skip(1);
        assert forall|i: int| 0 <= i < rest.len() implies word(#[trigger] rest[i]) is Flag by {
            assert(rest[i] == words[i + 1]);
        }
        lemma_flags(rest);
        assert(orders(words) =~= words.map_values(|w: Seq<char>| Order::Flag(w)));
    } else {
        assert(orders(words) =~= words.map_values(|w: Seq<char>| Order::Flag(w)));
    }
}

proof fn lemma_flags_decide_nothing(words: Seq<Seq<char>>, path: Seq<char>)
    ensures
        deciding(words.map_values(|w: Seq<char>| Order::Flag(w)), path) is None,
    decreases words.len(),
{
    if words.len() > 0 {
        lemma_flags_decide_nothing(words.drop_last(), path);
        let all = words.map_values(|w: Seq<char>| Order::Flag(w));
        assert(all.drop_last() =~= words.drop_last().map_values(|w: Seq<char>| Order::Flag(w)));
    }
}

proof fn lemma_cut_off(p: ResolvedView, path: Seq<char>)
    ensures
        whole(cut_off(p)),
        orders(cut_off(p)) == cut_off(p).map_values(|w: Seq<char>| Order::Flag(w)),
        deciding(orders(cut_off(p)), path) is None,
{
    lemma_words();
    assert forall|i: int| 0 <= i < cut_off(p).len() implies word(#[trigger] cut_off(p)[i]) is Flag by {}
    lemma_flags(cut_off(p));
    lemma_flags_decide_nothing(cut_off(p), path);
}

/// What says what can be read.
proof fn lemma_readable(p: ResolvedView, host: HostView, path: Seq<char>)
    requires
        lies_below(path, "/"@),
    ensures
        whole(readable(p, host)),
        p.filesystem_read == FilesystemPolicy::Host ==> (deciding(
            orders(readable(p, host)),
            path,
        ) matches Some(o) && shows_the_host(o, p.filesystem_write == FilesystemPolicy::Host)
            && dest_of(o) == Some("/"@)),
        p.filesystem_read == FilesystemPolicy::Scoped ==> (deciding(
            orders(readable(p, host)),
            path,
        ) matches Some(o) && (if lies_in(path, system_roots(), host.existing) || lies_in(
            path,
            p.read_roots,
            host.existing,
        ) {
            shows_the_host(o, false)
        } else {
            o == Order::Fresh("/"@)
        })),
        forall|i: int|
            0 <= i < orders(readable(p, host)).len() ==> !is_flag(
                #[trigger] orders(readable(p, host))[i],
            ),
{
    lemma_words();
    assert(deciding(Seq::<Order>::empty(), path) is None);
    if p.filesystem_read == FilesystemPolicy::Host {
        let one = readable(p, host);
        lemma_one_order(one);
        let o = first_order(one);
        assert(seq![o].drop_last() =~= Seq::<Order>::empty());
        assert(seq![o].last() == o);
    } else {
        let a = seq!["--tmpfs"@, "/"@];
        let b = binds("--ro-bind"@, system_roots(), host);
        let c = binds("--ro-bind"@, p.read_roots, host);
        lemma_one_order(a);
        lemma_binds(false, system_roots(), host, path);
        lemma_binds(false, p.read_roots, host, path);
        lemma_orders_add(a, b);
        lemma_orders_add(a + b, c);
        let o = Order::Fresh("/"@);
        assert(first_order(a) == o);
        assert(seq![o].drop_last() =~= Seq::<Order>::empty());
        assert(seq![o].last() == o);
        lemma_deciding_add(seq![o], orders(b), path);
        lemma_deciding_add(seq![o] + orders(b), orders(c), path);
        let all = seq![o] + orders(b) + orders(c);
        assert(orders(readable(p, host)) == all);
        assert forall|i: int| 0 <= i < all.len() implies !is_flag(#[trigger] all[i]) by {
            if 0 < i <= orders(b).len() {
                assert(all[i] == orders(b)[i - 1]);
            } else if i > orders(b).len() {
                assert(all[i] == orders(c)[i - 1 - orders(b).len()]);
            }
        }
    }
}

/// What a child is told, piece by piece.
proof fn lemma_pieces(
    command: CommandView,
    cwd: Seq<char>,
    p: ResolvedView,
    host: HostView,
    path: Seq<char>,
)
    requires
        lies_below(path, "/"@),
    ensures
        ({
            let flags = orders(cut_off(p));
            let read = orders(readable(p, host));
            let kernel = seq![Order::Kernel("/dev"@), Order::Kernel("/proc"@)];
            let write = orders(writable(p, host));
            let only = orders(binds("--ro-bind"@, p.read_only_roots, host));
            let hidden = orders(masks(p.unreadable_roots + p.sensitive_paths, host));
            let end = seq![Order::Start(cwd), Order::Run(seq![command.program] + command.args)];
            &&& told(command, cwd, p, host) == flags + read + kernel + write + only + hidden + end
            &&& deciding(told(command, cwd, p, host), path) == (if deciding(hidden, path) is Some {
                deciding(hidden, path)
            } else if deciding(only, path) is Some {
                deciding(only, path)
            } else if deciding(write, path) is Some {
                deciding(write, path)
            } else if lies_below(path, "/proc"@) {
                Some(Order::Kernel("/proc"@))
            } else if lies_below(path, "/dev"@) {
                Some(Order::Kernel("/dev"@))
            } else {
                deciding(read, path)
            })
        }),
{
    lemma_words();
    lemma_cut_off(p, path);
    lemma_readable(p, host, path);
    lemma_binds(true, p.write_roots, host, path);
    lemma_binds(false, p.read_only_roots, host, path);
    lemma_masks(p.unreadable_roots + p.sensitive_paths, host, path);
    let a = cut_off(p);
    let b = readable(p, host);
    let dev = seq!["--dev"@, "/dev"@];
    let proc = seq!["--proc"@, "/proc"@];
    lemma_one_order(dev);
    lemma_one_order(proc);
    lemma_orders_add(dev, proc);
    let c = dev + proc;
    assert(c =~= seq!["--dev"@, "/dev"@, "--proc"@, "/proc"@]);
    let kernel = seq![Order::Kernel("/dev"@), Order::Kernel("/proc"@)];
    assert(first_order(dev) == Order::Kernel("/dev"@));
    assert(first_order(proc) == Order::Kernel("/proc"@));
    assert(orders(c) =~= kernel);
    let d = writable(p, host);
    assert(whole(d)) by {
        assert(whole(Seq::<Seq<char>>::empty()));
    }
    let e = binds("--ro-bind"@, p.read_only_roots, host);
    let f = masks(p.unreadable_roots + p.sensitive_paths, host);
    let start = seq!["--chdir"@, cwd];
    let run = seq!["--"@, command.program] + command.args;
    lemma_one_order(start);
    lemma_orders_add(start, run);
    assert(run.skip(1) =~= seq![command.program] + command.args);
    assert(first_order(start) == Order::Start(cwd));
    let end = seq![Order::Start(cwd), Order::Run(seq![command.program] + command.args)];
    assert(orders(run) =~= seq![Order::Run(seq![command.program] + command.args)]);
    let g = start + run;
    assert(orders(g) =~= end);
    assert(g =~= seq!["--chdir"@, cwd, "--"@, command.program] + command.args);
    lemma_orders_add(a, b);
    lemma_orders_add(a + b, c);
    lemma_orders_add(a + b + c, d);
    lemma_orders_add(a + b + c + d, e);
    lemma_orders_add(a + b + c + d + e, f);
    lemma_orders_add(a + b + c + d + e + f, g);
    assert(bwrap_arguments(command, cwd, p, host) =~= a + b + c + d + e + f + g);
    let (oa, ob, oc, od, oe, of_) = (
        orders(a),
        orders(b),
        orders(c),
        orders(d),
        orders(e),
        orders(f),
    );
    lemma_deciding_add(oa, ob, path);
    lemma_deciding_add(oa + ob, oc, path);
    lemma_deciding_add(oa + ob + oc, od, path);
    lemma_deciding_add(oa + ob + oc + od, oe, path);
    lemma_deciding_add(oa + ob + oc + od + oe, of_, path);
    lemma_deciding_add(oa + ob + oc + od + oe + of_, end, path);
    assert(deciding(end, path) is None) by {
        reveal_with_fuel(deciding, 3);
        assert(end.drop_last() =~= seq![Order::Start(cwd)]);
        assert(end.drop_last().drop_last() =~= Seq::<Order>::empty());
        assert(end.last() == Order::Run(seq![command.program] + command.args));
        assert(end.drop_last().last() == Order::Start(cwd));
    }
    assert(deciding(kernel, path) == (if lies_below(path, "/proc"@) {
        Some(Order::Kernel("/proc"@))
    } else if lies_below(path, "/dev"@) {
        Some(Order::Kernel("/dev"@))
    } else {
        None
    })) by {
        reveal_with_fuel(deciding, 3);
        assert(kernel.drop_last() =~= seq![Order::Kernel("/dev"@)]);
        assert(kernel.drop_last().drop_last() =~= Seq::<Order>::empty());
        assert(kernel.last() == Order::Kernel("/proc"@));
        assert(kernel.drop_last().last() == Order::Kernel("/dev"@));
    }
}

proof fn lemma_hidden_in_both(path: Seq<char>, p: ResolvedView, there: Seq<Seq<char>>)
    ensures
        lies_in(path, p.unreadable_roots + p.sensitive_paths, there) <==> lies_in(
            path,
            p.unreadable_roots,
            there,
        ) || lies_in(path, p.sensitive_paths, there),
{
    let a = p.unreadable_roots;
    let b = p.sensitive_paths;
    let all = a + b;
    if lies_in(path, all, there) {
        let i = choose|i: int|
            0 <= i < all.len() && there.contains(#[trigger] all[i]) && lies_below(path, all[i]);
        if i < a.len() {
            assert(a[i] == all[i]);
        } else {
            assert(b[i - a.len()] == all[i]);
        }
    }
    if lies_in(path, a, there) {
        let i = choose|i: int|
            0 <= i < a.len() && there.contains(#[trigger] a[i]) && lies_below(path, a[i]);
        assert(a[i] == all[i]);
    }
    if lies_in(path, b, there) {
        let i = choose|i: int|
            0 <= i < b.len() && there.contains(#[trigger] b[i]) && lies_below(path, b[i]);
        assert(b[i] == all[a.len() + i]);
    }
}

/// What is to be hidden is hidden, whatever else the policy allows: the last argument whose destination
/// holds it leaves an empty directory or an empty file there, neither of which can be written.
pub proof fn law_hidden_paths_are_hidden(
    command: CommandView,
    cwd: Seq<char>,
    p: ResolvedView,
    host: HostView,
    path: Seq<char>,
)
    requires
        lies_below(path, "/"@),
        is_hidden(path, p, host),
    ensures
        deciding(told(command, cwd, p, host), path) matches Some(o) && shows_nothing(o),
{
    lemma_pieces(command, cwd, p, host, path);
    lemma_masks(p.unreadable_roots + p.sensitive_paths, host, path);
    lemma_hidden_in_both(path, p, host.directories);
    lemma_hidden_in_both(path, p, host.others);
}

/// What is to be read-only is read-only: a path in a read-only root that is there, and that nothing
/// hides, is what the host has there, and cannot be written.
pub proof fn law_read_only_paths_are_read_only(
    command: CommandView,
    cwd: Seq<char>,
    p: ResolvedView,
    host: HostView,
    path: Seq<char>,
)
    requires
        lies_below(path, "/"@),
        !is_hidden(path, p, host),
        lies_in(path, p.read_only_roots, host.existing),
    ensures
        deciding(told(command, cwd, p, host), path) matches Some(o) && shows_the_host(o, false),
{
    lemma_pieces(command, cwd, p, host, path);
    lemma_masks(p.unreadable_roots + p.sensitive_paths, host, path);
    lemma_hidden_in_both(path, p, host.directories);
    lemma_hidden_in_both(path, p, host.others);
    lemma_binds(false, p.read_only_roots, host, path);
}

/// What is to be written can be written: a path in a write root that is there, in no read-only root and
/// hidden by nothing, is what the host has there, and can be written. So no argument behind the bind of
/// its root takes it away again.
pub proof fn law_write_roots_can_be_written(
    command: CommandView,
    cwd: Seq<char>,
    p: ResolvedView,
    host: HostView,
    path: Seq<char>,
)
    requires
        lies_below(path, "/"@),
        p.filesystem_write == FilesystemPolicy::Scoped,
        lies_in(path, p.write_roots, host.existing),
        !lies_in(path, p.read_only_roots, host.existing),
        !is_hidden(path, p, host),
    ensures
        deciding(told(command, cwd, p, host), path) matches Some(o) && shows_the_host(o, true) && (
        dest_of(o) matches Some(dest) && p.write_roots.contains(dest)),
{
    lemma_pieces(command, cwd, p, host, path);
    lemma_masks(p.unreadable_roots + p.sensitive_paths, host, path);
    lemma_hidden_in_both(path, p, host.directories);
    lemma_hidden_in_both(path, p, host.others);
    lemma_binds(false, p.read_only_roots, host, path);
    lemma_binds(true, p.write_roots, host, path);
}

/// Nothing else can be written: a path that can be written lies in a write root that is there, in no
/// read-only root and in nothing that is hidden, unless the whole host may be read and written.
pub proof fn law_nothing_else_can_be_written(
    command: CommandView,
    cwd: Seq<char>,
    p: ResolvedView,
    host: HostView,
    path: Seq<char>,
)
    requires
        lies_below(path, "/"@),
        deciding(told(command, cwd, p, host), path) matches Some(o) && is_write(o),
    ensures
        !is_hidden(path, p, host),
        !lies_in(path, p.read_only_roots, host.existing),
        p.filesystem_write == FilesystemPolicy::Scoped ==> lies_in(
            path,
            p.write_roots,
            host.existing,
        ),
        p.filesystem_write == FilesystemPolicy::Host ==> p.filesystem_read == FilesystemPolicy::Host,
{
    lemma_pieces(command, cwd, p, host, path);
    lemma_readable(p, host, path);
    lemma_masks(p.unreadable_roots + p.sensitive_paths, host, path);
    lemma_hidden_in_both(path, p, host.directories);
    lemma_hidden_in_both(path, p, host.others);
    lemma_binds(false, p.read_only_roots, host, path);
    lemma_binds(true, p.write_roots, host, path);
    assert(deciding(Seq::<Order>::empty(), path) is None);
    assert(orders(Seq::<Seq<char>>::empty()) =~= Seq::<Order>::empty());
}

/// Where the whole host may be read, every path is what the host has there, but for what is hidden and
/// for what the kernel keeps; and where it may be written too, so it can be, but for the read-only
/// roots.
pub proof fn law_an_open_host_is_seen(
    command: CommandView,
    cwd: Seq<char>,
    p: ResolvedView,
    host: HostView,
    path: Seq<char>,
)
    requires
        lies_below(path, "/"@),
        !lies_below(path, "/dev"@),
        !lies_below(path, "/proc"@),
        p.filesystem_read == FilesystemPolicy::Host,
        !is_hidden(path, p, host),
    ensures
        deciding(told(command, cwd, p, host), path) matches Some(o) && (shows_the_host(o, true)
            || shows_the_host(o, false)) && (p.filesystem_write == FilesystemPolicy::Host
            && !lies_in(path, p.read_only_roots, host.existing) ==> shows_the_host(o, true)),
{
    lemma_pieces(command, cwd, p, host, path);
    lemma_readable(p, host, path);
    lemma_masks(p.unreadable_roots + p.sensitive_paths, host, path);
    lemma_hidden_in_both(path, p, host.directories);
    lemma_hidden_in_both(path, p, host.others);
    lemma_binds(false, p.read_only_roots, host, path);
    lemma_binds(true, p.write_roots, host, path);
    assert(deciding(Seq::<Order>::empty(), path) is None);
    assert(orders(Seq::<Seq<char>>::empty()) =~= Seq::<Order>::empty());
}

/// Where only some roots may be read, a path in one of them, or where a system keeps what every program
/// reads, is what the host has there; and a path in none of them, and in no root that is named
/// otherwise, is not there at all.
pub proof fn law_scoped_reads_are_seen(
    command: CommandView,
    cwd: Seq<char>,
    p: ResolvedView,
    host: HostView,
    path: Seq<char>,
)
    requires
        lies_below(path, "/"@),
        !lies_below(path, "/dev"@),
        !lies_below(path, "/proc"@),
        p.filesystem_read == FilesystemPolicy::Scoped,
        !is_hidden(path, p, host),
    ensures
        ({
            let seen = deciding(told(command, cwd, p, host), path);
            let written = p.filesystem_write == FilesystemPolicy::Scoped && lies_in(
                path,
                p.write_roots,
                host.existing,
            );
            if lies_in(path, p.read_roots, host.existing) || lies_in(
                path,
                system_roots(),
                host.existing,
            ) || lies_in(path, p.read_only_roots, host.existing) || written {
                seen matches Some(o) && (shows_the_host(o, true) || shows_the_host(o, false))
            } else {
                seen == Some(Order::Fresh("/"@))
            }
        }),
{
    lemma_pieces(command, cwd, p, host, path);
    lemma_readable(p, host, path);
    lemma_masks(p.unreadable_roots + p.sensitive_paths, host, path);
    lemma_hidden_in_both(path, p, host.directories);
    lemma_hidden_in_both(path, p, host.others);
    lemma_binds(false, p.read_only_roots, host, path);
    lemma_binds(true, p.write_roots, host, path);
    assert(deciding(Seq::<Order>::empty(), path) is None);
    assert(orders(Seq::<Seq<char>>::empty()) =~= Seq::<Order>::empty());
}

/// Where a system keeps what every program reads can be read: programs, libraries and settings.
pub proof fn law_system_roots_are_known()
    ensures
        forall|root: Seq<char>|
            root == "/bin"@ || root == "/sbin"@ || root == "/usr"@ || root == "/etc"@ || root
                == "/lib"@ || root == "/lib64"@ || root == "/nix/store"@ || root
                == "/run/current-system/sw"@ ==> #[trigger] system_roots().contains(root),
{
    let all = system_roots();
    assert(all[0] == "/bin"@ && all[1] == "/sbin"@ && all[2] == "/usr"@ && all[3] == "/etc"@ && all[4]
        == "/lib"@ && all[5] == "/lib64"@ && all[6] == "/nix/store"@ && all[7]
        == "/run/current-system/sw"@);
}

/// A child is cut off from the processes, the users and the session of the host in every sandbox, and
/// from its network exactly if the policy denies that. It starts in its directory, and what runs is the
/// command with its arguments.
pub proof fn law_what_a_sandbox_runs(
    command: CommandView,
    cwd: Seq<char>,
    p: ResolvedView,
    host: HostView,
)
    ensures
        ({
            let all = told(command, cwd, p, host);
            &&& all.contains(Order::Flag("--unshare-net"@)) <==> p.network == NetworkPolicy::Deny
            &&& all.contains(Order::Flag("--new-session"@))
            &&& all.contains(Order::Flag("--die-with-parent"@))
            &&& all.contains(Order::Flag("--unshare-user"@))
            &&& all.contains(Order::Flag("--unshare-pid"@))
            &&& all.len() >= 2
            &&& all.last() == Order::Run(seq![command.program] + command.args)
            &&& all[all.len() - 2] == Order::Start(cwd)
        }),
{
    let root = "/"@;
    assert(lies_below(root, root)) by {
        let place = parts(PathStyle::Unix, root);
        assert(place.take(place.len() as int) =~= place);
    }
    lemma_pieces(command, cwd, p, host, root);
    lemma_cut_off(p, root);
    lemma_readable(p, host, root);
    lemma_binds(true, p.write_roots, host, root);
    lemma_binds(false, p.read_only_roots, host, root);
    lemma_masks(p.unreadable_roots + p.sensitive_paths, host, root);
    assert(orders(Seq::<Seq<char>>::empty()) =~= Seq::<Order>::empty());
    let flags = orders(cut_off(p));
    let read = orders(readable(p, host));
    let kernel = seq![Order::Kernel("/dev"@), Order::Kernel("/proc"@)];
    let write = orders(writable(p, host));
    let only = orders(binds("--ro-bind"@, p.read_only_roots, host));
    let hidden = orders(masks(p.unreadable_roots + p.sensitive_paths, host));
    let end = seq![Order::Start(cwd), Order::Run(seq![command.program] + command.args)];
    let all = told(command, cwd, p, host);
    assert(all == flags + read + kernel + write + only + hidden + end);
    let rest = read + kernel + write + only + hidden + end;
    assert(all =~= flags + rest);
    assert forall|i: int| 0 <= i < rest.len() implies !is_flag(#[trigger] rest[i]) by {
        let n1 = read.len() as int;
        let n2 = n1 + 2;
        let n3 = n2 + write.len();
        let n4 = n3 + only.len();
        let n5 = n4 + hidden.len();
        if i < n1 {
            assert(rest[i] == read[i]);
        } else if i < n2 {
            assert(rest[i] == kernel[i - n1]);
        } else if i < n3 {
            assert(rest[i] == write[i - n2]);
        } else if i < n4 {
            assert(rest[i] == only[i - n3]);
        } else if i < n5 {
            assert(rest[i] == hidden[i - n4]);
        } else {
            assert(rest[i] == end[i - n5]);
        }
    }
    reveal_strlit("--new-session");
    reveal_strlit("--unshare-net");
    reveal_strlit("--die-with-parent");
    reveal_strlit("--unshare-user");
    reveal_strlit("--unshare-pid");
    assert("--new-session"@.len() == 13);
    assert("--unshare-net"@.len() == 13);
    assert("--die-with-parent"@.len() == 17);
    assert("--unshare-user"@.len() == 14);
    assert("--unshare-pid"@.len() == 13);
    assert("--new-session"@[2] != "--unshare-net"@[2]);
    assert("--unshare-pid"@[10] != "--unshare-net"@[10]);
    let words = cut_off(p);
    assert(flags[0] == Order::Flag("--new-session"@) && flags[1] == Order::Flag("--die-with-parent"@));
    assert(flags[2] == Order::Flag("--unshare-user"@) && flags[3] == Order::Flag("--unshare-pid"@));
    assert(all[0] == flags[0] && all[1] == flags[1] && all[2] == flags[2] && all[3] == flags[3]);
    if p.network == NetworkPolicy::Deny {
        assert(flags[4] == Order::Flag("--unshare-net"@));
        assert(all[4] == flags[4]);
    } else if all.contains(Order::Flag("--unshare-net"@)) {
        let i = choose|i: int| 0 <= i < all.len() && all[i] == Order::Flag("--unshare-net"@);
        if i < flags.len() {
            assert(all[i] == flags[i]);
        } else {
            assert(all[i] == rest[i - flags.len()]);
        }
    }
}

/// The sandbox is made by the first program of its name that the child could not have written: no
/// directory before it has one that could not be written, and there is none exactly if no directory
/// has.
pub proof fn law_the_first_trusted_program_is_taken(
    directories: Seq<SearchDirectory>,
    write_roots: Seq<Seq<char>>,
    i: int,
)
    ensures
        0 <= trusted_place(directories, write_roots) <= directories.len(),
        trusted_place(directories, write_roots) < directories.len() ==> directories[trusted_place(
            directories,
            write_roots,
        )].has_bwrap && forall|j: int|
            0 <= j < write_roots.len() ==> !lies_below(
                directories[trusted_place(directories, write_roots)].path@,
                #[trigger] write_roots[j],
            ),
        0 <= i < trusted_place(directories, write_roots) && directories[i].has_bwrap ==> exists|
            j: int,
        |
            0 <= j < write_roots.len() && lies_below(directories[i].path@, #[trigger] write_roots[j]),
    decreases directories.len(),
{
    if directories.len() > 0 {
        let rest = directories.drop_first();
        law_the_first_trusted_program_is_taken(rest, write_roots, i - 1);
        if !(directories[0].has_bwrap && outside(directories[0].path@, write_roots)) {
            let at = trusted_place(rest, write_roots);
            assert(trusted_place(directories, write_roots) == 1 + at);
            if at < rest.len() {
                assert(rest[at] == directories[at + 1]);
            }
            if 0 < i <= at {
                assert(rest[i - 1] == directories[i]);
            }
        }
    }
}

} // verus!
