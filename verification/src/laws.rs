//! Properties of the publishers that hold for every input.
use crate::mono::{
    asks, create_emits, filtered, success_answer, success_emits, flat_run, just_emits, lazy_yields, DoOnError, Foreach, MonoCreate,
    MonoCreateSuccess, MonoDoFinally, MonoDoOnComplete, MonoError, MonoJust, MonoLazy, MonoScheduleOn,
    MonoTransform, Processor,
};
use crate::mono::Mono;
use crate::schedulers::Scheduler;
use crate::spi::{errors, result_signals, values, Publisher, Signal, REQUEST_MAX};
use vstd::prelude::*;

verus! {

/// `just(v)` answers the first request of at least one item with a copy of
/// `v` followed by completion, after the subscription; nothing follows the
/// completion, whatever else is requested, and a request of zero items
/// gets nothing.
pub proof fn law_just_answers_once<T: Clone, E>(v: T, n: usize, sigs: Seq<Signal<T, E>>)
    ensures
        just_emits(
            v,
            seq![REQUEST_MAX],
            seq![Signal::<T, E>::Subscribe, Signal::Next(v), Signal::Complete],
        ),
        just_emits(v, seq![REQUEST_MAX, n], sigs) ==> {
            &&& sigs.len() == 3
            &&& sigs[0] == Signal::<T, E>::Subscribe
            &&& sigs[1] matches Signal::Next(x) && cloned(v, x)
            &&& sigs[2] == Signal::<T, E>::Complete
        },
        just_emits(v, seq![0usize], sigs) ==> sigs == seq![Signal::<T, E>::Subscribe],
{
    assert(seq![REQUEST_MAX][0] > 0);
    assert(seq![REQUEST_MAX, n][0] > 0);
    let three = seq![Signal::<T, E>::Subscribe, Signal::Next(v), Signal::Complete];
    assert(three.skip(1) =~= seq![Signal::<T, E>::Next(v), Signal::Complete]);
    if just_emits(v, seq![REQUEST_MAX, n], sigs) {
        assert(sigs.skip(1)[0] == sigs[1]);
        assert(sigs.skip(1)[1] == sigs[2]);
    }
    if just_emits(v, seq![0usize], sigs) {
        assert(!asks(seq![0usize]));
        assert(sigs =~= seq![Signal::<T, E>::Subscribe]);
    }
}

/// The subscription followed by what one outcome gives: a value and
/// completion, or an error.
proof fn lemma_outcome_after_subscription<T, E>(r: Result<T, E>)
    ensures
        seq![Signal::<T, E>::Subscribe] + result_signals(r) == (match r {
            Ok(v) => seq![Signal::<T, E>::Subscribe, Signal::Next(v), Signal::Complete],
            Err(e) => seq![Signal::<T, E>::Subscribe, Signal::Error(e)],
        }),
{
    match r {
        Ok(v) => {
            assert(seq![Signal::<T, E>::Subscribe] + result_signals(r) =~= seq![
                Signal::<T, E>::Subscribe,
                Signal::Next(v),
                Signal::Complete,
            ]);
        },
        Err(e) => {
            assert(seq![Signal::<T, E>::Subscribe] + result_signals(r) =~= seq![
                Signal::<T, E>::Subscribe,
                Signal::Error(e),
            ]);
        },
    }
}

/// `just(v)` delivers, after the subscription, a copy of `v` and then
/// completion as soon as any one request asks for at least one item,
/// whichever request it is and whatever the others ask; when every request
/// asks for nothing, nothing follows the subscription.
pub proof fn law_just_answers_any_positive_request<T: Clone, E>(
    m: MonoJust<T, E>,
    demand: Seq<usize>,
    sigs: Seq<Signal<T, E>>,
)
    ensures
        (exists|i: int| 0 <= i < demand.len() && #[trigger] demand[i] > 0) ==> (m.emits(demand, sigs) <==> {
            &&& sigs.len() == 3
            &&& sigs[0] == Signal::<T, E>::Subscribe
            &&& sigs[1] matches Signal::Next(x) && cloned(m.value(), x)
            &&& sigs[2] == Signal::<T, E>::Complete
        }),
        (forall|i: int| 0 <= i < demand.len() ==> #[trigger] demand[i] == 0) ==> (m.emits(demand, sigs)
            <==> sigs == seq![Signal::<T, E>::Subscribe]),
{
    if sigs.len() >= 1 {
        assert(sigs.skip(1).len() == sigs.len() - 1);
    }
    if sigs.len() == 3 {
        assert(sigs.skip(1)[0] == sigs[1]);
        assert(sigs.skip(1)[1] == sigs[2]);
    }
    if forall|i: int| 0 <= i < demand.len() ==> #[trigger] demand[i] == 0 {
        assert(!asks(demand));
        if m.emits(demand, sigs) {
            assert(sigs =~= seq![Signal::<T, E>::Subscribe]);
        }
        if sigs == seq![Signal::<T, E>::Subscribe] {
            assert(sigs.skip(1) =~= Seq::<Signal<T, E>>::empty());
        }
    }
}

/// `error(e)` delivers, after the subscription, the error `e`, whatever the
/// subscriber asks for.
pub proof fn law_error_delivers_error<T, E>(m: MonoError<T, E>, demand: Seq<usize>, sigs: Seq<Signal<T, E>>)
    ensures
        m.emits(demand, sigs) <==> sigs == seq![Signal::<T, E>::Subscribe, Signal::Error(m.error())],
{
}

/// `success(g)` answers any request, whatever amount it asks for, with a
/// value of `g` followed by completion, after the subscription; without a
/// request nothing follows the subscription.
pub proof fn law_success_delivers_value_then_completion<T, G: FnOnce() -> T>(
    m: MonoCreateSuccess<T, G>,
    demand: Seq<usize>,
    sigs: Seq<Signal<T, ()>>,
)
    ensures
        demand.len() > 0 ==> (m.emits(demand, sigs) <==> exists|v: T|
            #[trigger] m.generator().ensures((), v) && sigs == seq![
                Signal::<T, ()>::Subscribe,
                Signal::Next(v),
                Signal::Complete,
            ]),
        demand.len() == 0 ==> (m.emits(demand, sigs) <==> sigs == seq![Signal::<T, ()>::Subscribe]),
{
    let g = m.generator();
    if demand.len() > 0 {
        if m.emits(demand, sigs) {
            assert(success_emits(g, demand, sigs));
            assert(success_answer(g, demand, sigs.skip(1)));
            let v = choose|v: T|
                #[trigger] g.ensures((), v) && sigs.skip(1) == seq![Signal::<T, ()>::Next(v), Signal::Complete];
            assert(sigs.skip(1).len() == 2);
            assert(sigs.len() == 3);
            assert(sigs[1] == sigs.skip(1)[0]);
            assert(sigs[2] == sigs.skip(1)[1]);
            assert(sigs =~= seq![Signal::<T, ()>::Subscribe, Signal::Next(v), Signal::Complete]);
        }
        if exists|v: T| #[trigger] g.ensures((), v) && sigs == seq![Signal::<T, ()>::Subscribe, Signal::Next(v), Signal::Complete] {
            let v = choose|v: T|
                #[trigger] g.ensures((), v) && sigs == seq![Signal::<T, ()>::Subscribe, Signal::Next(v), Signal::Complete];
            assert(sigs.skip(1) =~= seq![Signal::<T, ()>::Next(v), Signal::Complete]);
        }
    } else {
        if m.emits(demand, sigs) {
            assert(sigs =~= seq![Signal::<T, ()>::Subscribe]);
        }
        if sigs == seq![Signal::<T, ()>::Subscribe] {
            assert(sigs.skip(1) =~= Seq::<Signal<T, ()>>::empty());
        }
    }
}

/// `create(g)` answers any request, whatever amount it asks for, with the
/// outcome of `g` after the subscription: a value followed by completion,
/// or an error; without a request nothing follows the subscription.
pub proof fn law_create_delivers_outcome<T, E, G: FnOnce() -> Result<T, E>>(
    m: MonoCreate<T, G, E>,
    demand: Seq<usize>,
    sigs: Seq<Signal<T, E>>,
)
    ensures
        demand.len() > 0 ==> (m.emits(demand, sigs) <==> exists|r: Result<T, E>|
            #[trigger] m.generator().ensures((), r) && sigs == (match r {
                Ok(v) => seq![Signal::<T, E>::Subscribe, Signal::Next(v), Signal::Complete],
                Err(e) => seq![Signal::<T, E>::Subscribe, Signal::Error(e)],
            })),
        demand.len() == 0 ==> (m.emits(demand, sigs) <==> sigs == seq![Signal::<T, E>::Subscribe]),
{
    let g = m.generator();
    if demand.len() > 0 {
        if m.emits(demand, sigs) {
            let r = choose|r: Result<T, E>| #[trigger] g.ensures((), r) && sigs.skip(1) == result_signals(r);
            assert(sigs =~= seq![Signal::Subscribe] + result_signals(r));
            lemma_outcome_after_subscription(r);
        }
        if exists|r: Result<T, E>|
            #[trigger] g.ensures((), r) && sigs == (match r {
                Ok(v) => seq![Signal::<T, E>::Subscribe, Signal::Next(v), Signal::Complete],
                Err(e) => seq![Signal::<T, E>::Subscribe, Signal::Error(e)],
            }) {
            let r = choose|r: Result<T, E>|
                #[trigger] g.ensures((), r) && sigs == (match r {
                    Ok(v) => seq![Signal::<T, E>::Subscribe, Signal::Next(v), Signal::Complete],
                    Err(e) => seq![Signal::<T, E>::Subscribe, Signal::Error(e)],
                });
            lemma_outcome_after_subscription(r);
            assert(sigs.skip(1) =~= result_signals(r));
        }
    } else {
        if m.emits(demand, sigs) {
            assert(sigs =~= seq![Signal::<T, E>::Subscribe]);
        }
        if sigs == seq![Signal::<T, E>::Subscribe] {
            assert(sigs.skip(1) =~= Seq::<Signal<T, E>>::empty());
        }
    }
}

/// `lazy(f)` delivers, after the subscription, an outcome that `f` emits: a
/// value followed by completion, or an error, whatever amounts the
/// subscriber asks for.
pub proof fn law_lazy_delivers_outcome<T, E, F>(m: MonoLazy<T, E, F>, demand: Seq<usize>, sigs: Seq<Signal<T, E>>) where
    T: Send + 'static,
    E: Send + 'static,
    F: FnOnce(crate::mono::Emitter<T, E>) -> crate::mono::Emitter<T, E>,

    ensures
        m.emits(demand, sigs) <==> exists|r: Result<T, E>|
            #[trigger] lazy_yields(m.producer(), r) && sigs == (match r {
                Ok(v) => seq![Signal::<T, E>::Subscribe, Signal::Next(v), Signal::Complete],
                Err(e) => seq![Signal::<T, E>::Subscribe, Signal::Error(e)],
            }),
{
    let f = m.producer();
    if m.emits(demand, sigs) {
        let r = choose|r: Result<T, E>|
            #[trigger] lazy_yields(f, r) && sigs == seq![Signal::Subscribe] + result_signals(r);
        lemma_outcome_after_subscription(r);
    }
    if exists|r: Result<T, E>|
        #[trigger] lazy_yields(f, r) && sigs == (match r {
            Ok(v) => seq![Signal::<T, E>::Subscribe, Signal::Next(v), Signal::Complete],
            Err(e) => seq![Signal::<T, E>::Subscribe, Signal::Error(e)],
        }) {
        let r = choose|r: Result<T, E>|
            #[trigger] lazy_yields(f, r) && sigs == (match r {
                Ok(v) => seq![Signal::<T, E>::Subscribe, Signal::Next(v), Signal::Complete],
                Err(e) => seq![Signal::<T, E>::Subscribe, Signal::Error(e)],
            });
        lemma_outcome_after_subscription(r);
    }
}

/// A processor whose emitter has emitted `o` first delivers, after the
/// subscription, `o`: a value followed by completion, or the error,
/// whatever the subscriber asks for.
pub proof fn law_processor_delivers_first_outcome<T, E>(
    p: Processor<T, E>,
    o: Result<T, E>,
    demand: Seq<usize>,
    sigs: Seq<Signal<T, E>>,
) where T: Send + 'static, E: Send + 'static,
    requires
        p.pending() == Some(o),
    ensures
        p.emits(demand, sigs) <==> sigs == (match o {
            Ok(v) => seq![Signal::<T, E>::Subscribe, Signal::Next(v), Signal::Complete],
            Err(e) => seq![Signal::<T, E>::Subscribe, Signal::Error(e)],
        }),
{
    lemma_outcome_after_subscription(o);
}

/// `create(g)` runs `g` once, for the first request, whatever amount it
/// asks for, and delivers its result after the subscription: a value and
/// completion, or an error. Later requests get nothing.
pub proof fn law_create_runs_once<T, E, G: FnOnce() -> Result<T, E>>(
    g: G,
    demand: Seq<usize>,
    sigs: Seq<Signal<T, E>>,
)
    requires
        demand.len() > 0,
    ensures
        create_emits(g, demand, sigs) <==> exists|r: Result<T, E>|
            #[trigger] g.ensures((), r) && sigs == seq![Signal::Subscribe] + result_signals(r),
{
    if create_emits(g, demand, sigs) {
        let r = choose|r: Result<T, E>| #[trigger] g.ensures((), r) && sigs.skip(1) == result_signals(r);
        assert(sigs =~= seq![Signal::Subscribe] + result_signals(r));
    }
    if exists|r: Result<T, E>| #[trigger] g.ensures((), r) && sigs == seq![Signal::Subscribe] + result_signals(r) {
        let r = choose|r: Result<T, E>| #[trigger] g.ensures((), r) && sigs == seq![Signal::Subscribe] + result_signals(r);
        assert(sigs.skip(1) =~= result_signals(r));
    }
}

/// `just(v).map(f)` delivers, after the subscription, `f` of a copy of `v`,
/// then completion, to a subscriber that asks for everything.
pub proof fn law_map_of_just<T, E, A, F>(
    m: MonoTransform<MonoJust<T, E>, T, A, F, E>,
    sigs: Seq<Signal<A, E>>,
) where
    T: Clone + Send + 'static,
    E: Send + 'static,
    A: Send + 'static,
    F: 'static + Send + Fn(T) -> A,

    requires
        m.emits(seq![REQUEST_MAX], sigs),
    ensures
        sigs.len() == 3,
        sigs[0] == Signal::<A, E>::Subscribe,
        sigs[1] matches Signal::Next(y) && exists|x: T| cloned(m.parent().value(), x) && #[trigger] m.transformer().ensures((x,), y),
        sigs[2] == Signal::<A, E>::Complete,
{
    let up = choose|up: Seq<Signal<T, E>>|
        #[trigger] m.parent().emits(seq![REQUEST_MAX], up) && crate::mono::mapped(
            m.transformer(),
            up,
            sigs,
        );
    law_just_answers_once::<T, E>(m.parent().value(), 0, up);
    assert(seq![REQUEST_MAX][0] > 0);
    assert(up.skip(1)[0] == up[1]);
    assert(up.skip(1)[1] == up[2]);
    assert(crate::mono::signal_mapped(m.transformer(), up[0], sigs[0]));
    assert(crate::mono::signal_mapped(m.transformer(), up[1], sigs[1]));
    assert(crate::mono::signal_mapped(m.transformer(), up[2], sigs[2]));
}

/// Mapping with `f` and then with `g` delivers what mapping once with a
/// function `h` whose results are those of `g` on the results of `f` delivers.
pub proof fn law_map_composes<T1, T2, T3, E, F, G, H>(
    f: F,
    g: G,
    h: H,
    a: Seq<Signal<T1, E>>,
    b: Seq<Signal<T2, E>>,
    c: Seq<Signal<T3, E>>,
) where F: Fn(T1) -> T2, G: Fn(T2) -> T3, H: Fn(T1) -> T3,
    requires
        forall|x: T1, y: T2, z: T3| #[trigger] f.ensures((x,), y) && #[trigger] g.ensures((y,), z)
            ==> h.ensures((x,), z),
        crate::mono::mapped(f, a, b),
        crate::mono::mapped(g, b, c),
    ensures
        crate::mono::mapped(h, a, c),
{
    assert forall|i: int| 0 <= i < a.len() implies #[trigger] crate::mono::signal_mapped(
        h,
        a[i],
        c[i],
    ) by {
        assert(crate::mono::signal_mapped(f, a[i], b[i]));
        assert(crate::mono::signal_mapped(g, b[i], c[i]));
    }
}

/// A filter whose predicate accepts every value passes everything through.
pub proof fn law_filter_accepting_all_is_identity<T, E, F: Fn(&T) -> bool>(
    p: F,
    src: Seq<Signal<T, E>>,
    dst: Seq<Signal<T, E>>,
)
    requires
        forall|t: &T, b: bool| #[trigger] p.ensures((t,), b) ==> b,
        filtered(p, src, dst),
    ensures
        dst == src,
    decreases src.len(),
{
    if src.len() > 0 {
        match src.last() {
            Signal::Next(v) => {
                if p.ensures((&v,), false) {
                    assert(false);
                }
                law_filter_accepting_all_is_identity(p, src.drop_last(), dst.drop_last());
            },
            _ => {
                law_filter_accepting_all_is_identity(p, src.drop_last(), dst.drop_last());
            },
        }
        assert(dst =~= dst.drop_last().push(dst.last()));
        assert(src =~= src.drop_last().push(src.last()));
    } else {
        assert(dst =~= src);
    }
}

/// A filter lets a value through exactly when the predicate accepts it, and
/// always lets completion through.
pub proof fn law_filter_value_then_completion<T, E, F: Fn(&T) -> bool>(
    p: F,
    v: T,
    out: Seq<Signal<T, E>>,
)
    ensures
        filtered(p, seq![Signal::Next(v), Signal::Complete], out) <==> {
            ||| p.ensures((&v,), true) && out == seq![Signal::<T, E>::Next(v), Signal::Complete]
            ||| p.ensures((&v,), false) && out == seq![Signal::<T, E>::Complete]
        },
{
    reveal_with_fuel(filtered, 3);
    let src = seq![Signal::<T, E>::Next(v), Signal::Complete];
    assert(src.drop_last() =~= seq![Signal::<T, E>::Next(v)]);
    assert(src.drop_last().drop_last() =~= Seq::<Signal<T, E>>::empty());
    let both = seq![Signal::<T, E>::Next(v), Signal::Complete];
    assert(both.drop_last() =~= seq![Signal::<T, E>::Next(v)]);
    assert(both.drop_last().drop_last() =~= Seq::<Signal<T, E>>::empty());
    assert(seq![Signal::<T, E>::Complete].drop_last() =~= Seq::<Signal<T, E>>::empty());
    assert(seq![Signal::<T, E>::Next(v)].drop_last() =~= Seq::<Signal<T, E>>::empty());
    if filtered(p, src, out) {
        if out.len() == 2 {
            assert(out =~= both);
        } else {
            assert(out.len() == 1);
            assert(out =~= seq![Signal::<T, E>::Complete]);
        }
    }
}

/// When the source delivers a value and completes, and the publisher made of
/// the value delivers, after its subscription, `inner` (a value and
/// completion, an error, or a bare completion), the subscriber receives
/// exactly `inner`: one terminal signal.
pub proof fn law_flatmap_delivers_inner<T1, T2, E>(
    v: T1,
    inner: Seq<Signal<T2, E>>,
    r: Result<T2, E>,
)
    requires
        inner == result_signals(r) || inner == seq![Signal::<T2, E>::Complete],
    ensures
        flat_run(
            seq![Signal::<T1, E>::Subscribe, Signal::Next(v), Signal::Complete],
            seq![Seq::empty(), seq![Signal::Subscribe] + inner, Seq::empty()],
        ).0 == inner,
{
    reveal_with_fuel(flat_run, 4);
    reveal_with_fuel(crate::mono::inner_run, 4);
    let outer = seq![Signal::<T1, E>::Subscribe, Signal::Next(v), Signal::Complete];
    let sub_inner = seq![Signal::<T2, E>::Subscribe] + inner;
    let inners = seq![Seq::<Signal<T2, E>>::empty(), sub_inner, Seq::empty()];
    assert(outer.drop_last() =~= seq![Signal::<T1, E>::Subscribe, Signal::Next(v)]);
    assert(outer.drop_last().drop_last() =~= seq![Signal::<T1, E>::Subscribe]);
    assert(outer.drop_last().drop_last().drop_last() =~= Seq::<Signal<T1, E>>::empty());
    assert(inners.drop_last() =~= seq![Seq::<Signal<T2, E>>::empty(), sub_inner]);
    assert(inners.drop_last().drop_last() =~= seq![Seq::<Signal<T2, E>>::empty()]);
    assert(inners.drop_last().drop_last().drop_last() =~= Seq::<Seq<Signal<T2, E>>>::empty());
    let s1 = seq![Signal::<T2, E>::Subscribe];
    assert(s1.drop_last() =~= Seq::<Signal<T2, E>>::empty());
    match r {
        Ok(w) => {
            if inner == result_signals(r) {
                assert(sub_inner =~= seq![Signal::<T2, E>::Subscribe, Signal::Next(w), Signal::Complete]);
                assert(sub_inner.drop_last() =~= seq![Signal::<T2, E>::Subscribe, Signal::Next(w)]);
                assert(sub_inner.drop_last().drop_last() =~= s1);
            }
        },
        Err(e) => {
            if inner == result_signals(r) {
                assert(sub_inner =~= seq![Signal::<T2, E>::Subscribe, Signal::Error(e)]);
                assert(sub_inner.drop_last() =~= s1);
            }
        },
    }
    if inner == seq![Signal::<T2, E>::Complete] {
        assert(sub_inner =~= seq![Signal::<T2, E>::Subscribe, Signal::Complete]);
        assert(sub_inner.drop_last() =~= s1);
    }
    assert(flat_run(outer, inners).0 =~= inner);
}

/// When the source fails, the error reaches the subscriber; when the source
/// completes without a value, the completion does.
pub proof fn law_flatmap_source_without_value<T1, T2, E>(e: E)
    ensures
        flat_run(
            seq![Signal::<T1, E>::Subscribe, Signal::Error(e)],
            seq![Seq::<Signal<T2, E>>::empty(), Seq::empty()],
        ).0 == seq![Signal::<T2, E>::Error(e)],
        flat_run(
            seq![Signal::<T1, E>::Subscribe, Signal::Complete],
            seq![Seq::<Signal<T2, E>>::empty(), Seq::empty()],
        ).0 == seq![Signal::<T2, E>::Complete],
{
    reveal_with_fuel(flat_run, 3);
    assert(seq![Signal::<T1, E>::Subscribe, Signal::Error(e)].drop_last() =~= seq![Signal::<T1, E>::Subscribe]);
    assert(seq![Signal::<T1, E>::Subscribe, Signal::Complete].drop_last() =~= seq![Signal::<T1, E>::Subscribe]);
    assert(seq![Signal::<T1, E>::Subscribe].drop_last() =~= Seq::<Signal<T1, E>>::empty());
    let ii = seq![Seq::<Signal<T2, E>>::empty(), Seq::empty()];
    assert(ii.drop_last() =~= seq![Seq::<Signal<T2, E>>::empty()]);
    assert(ii.drop_last().drop_last() =~= Seq::<Seq<Signal<T2, E>>>::empty());
    assert(Seq::<Signal<T2, E>>::empty().push(Signal::<T2, E>::Error(e)) =~= seq![Signal::<T2, E>::Error(e)]);
    assert(Seq::<Signal<T2, E>>::empty().push(Signal::<T2, E>::Complete) =~= seq![Signal::<T2, E>::Complete]);
}

/// `do_on_success` delivers exactly what its source delivers, and its
/// function has run on the value, when one is delivered.
pub proof fn law_do_on_success_is_transparent<Z, T, F, E>(
    m: Foreach<Z, T, F, E>,
    demand: Seq<usize>,
    sigs: Seq<Signal<T, E>>,
) where
    T: Send + 'static,
    E: Send + 'static,
    Z: Mono<T, E>,
    F: 'static + Send + FnOnce(&T),

    ensures
        m.emits(demand, sigs) ==> m.source().emits(demand, sigs),
        m.emits(demand, sigs) ==> (values(sigs).len() > 0 ==> m.action().ensures((&values(sigs)[0],), ())),
        m.accepts(demand) == m.source().accepts(demand),
{
}

/// `do_on_error` delivers exactly what its source delivers, and its function
/// has run on the error, when one is delivered.
pub proof fn law_do_on_error_is_transparent<T, E, M, F>(
    m: DoOnError<T, E, M, F>,
    demand: Seq<usize>,
    sigs: Seq<Signal<T, E>>,
) where
    T: Send + 'static,
    E: Send + 'static,
    M: Mono<T, E>,
    F: 'static + Send + FnOnce(&E),

    ensures
        m.emits(demand, sigs) ==> m.source().emits(demand, sigs),
        m.emits(demand, sigs) ==> (errors(sigs).len() > 0 ==> m.action().ensures((&errors(sigs)[0],), ())),
        m.accepts(demand) == m.source().accepts(demand),
{
}

/// `do_on_complete` delivers exactly what its source delivers, and its
/// function has run when a completion is delivered.
pub proof fn law_do_on_complete_is_transparent<T, E, M, F>(
    m: MonoDoOnComplete<T, E, M, F>,
    demand: Seq<usize>,
    sigs: Seq<Signal<T, E>>,
) where
    T: Send + 'static,
    E: Send + 'static,
    M: Mono<T, E>,
    F: 'static + Send + FnOnce(),

    ensures
        m.emits(demand, sigs) ==> m.source().emits(demand, sigs),
        m.emits(demand, sigs) ==> (crate::spi::completions(sigs) > 0 ==> m.action().ensures((), ())),
        m.accepts(demand) == m.source().accepts(demand),
{
}

/// `do_finally` delivers exactly what its source delivers, and its action has
/// run when a completion or an error is delivered.
pub proof fn law_do_finally_is_transparent<T, E, M, F>(
    m: MonoDoFinally<T, E, M, F>,
    demand: Seq<usize>,
    sigs: Seq<Signal<T, E>>,
) where
    T: Send + 'static,
    E: Send + 'static,
    M: Mono<T, E>,
    F: 'static + Send + FnOnce(),

    ensures
        m.emits(demand, sigs) ==> m.source().emits(demand, sigs),
        m.emits(demand, sigs) ==> (crate::mono::terminated(sigs) ==> m.action().ensures((), ())),
        m.accepts(demand) == m.source().accepts(demand),
{
}

/// Subscribing through a scheduler delivers exactly what the source delivers.
pub proof fn law_subscribe_on_is_transparent<T, E, M, C>(
    m: MonoScheduleOn<T, E, M, C>,
    demand: Seq<usize>,
    sigs: Seq<Signal<T, E>>,
) where
    M: 'static + Send + Mono<T, E>,
    C: Scheduler<Item = T, Error = E>,

    ensures
        m.emits(demand, sigs) == m.source().emits(demand, sigs),
        m.accepts(demand) == m.source().accepts(demand),
{
}

} // verus!
