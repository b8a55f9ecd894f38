use vstd::prelude::*;

use crate::err::{Error, ErrorKind};
use crate::list_records::{next_token, ListRecords};
use crate::metadata::{Format, Record};
use crate::request::{
    list_records_params, list_records_pairs, resumption_pairs, resumption_params, time_out_of_range,
    Params, QueryPairs,
};
use crate::time::Timestamp;

verus! {

/// Where a full harvest stands: before the first page, continuing with a
/// token value, or finished.
#[derive(Debug, Clone)]
pub enum HarvestState {
    Start,
    Continuing(String),
    Done,
}

pub enum StateView {
    Start,
    Continuing(Seq<char>),
    Done,
}

impl View for HarvestState {
    type V = StateView;

    open spec fn view(&self) -> StateView {
        match self {
            HarvestState::Start => StateView::Start,
            HarvestState::Continuing(t) => StateView::Continuing(t@),
            HarvestState::Done => StateView::Done,
        }
    }
}

/// The state after a page whose token value is `t`: continuing with the value,
/// or done where there is none.
pub open spec fn after_page(t: Option<Seq<char>>) -> StateView {
    match t {
        Some(v) => StateView::Continuing(v),
        None => StateView::Done,
    }
}

/// The parameters of the request made in state `s`: the listing filters at
/// the start, the token value alone when continuing, none when done.
pub open spec fn request_for(
    s: StateView,
    from: Option<Timestamp>,
    until: Option<Timestamp>,
    set: Option<Seq<char>>,
    prefix: Seq<char>,
) -> Result<Option<QueryPairs>, (ErrorKind, Seq<char>)> {
    match s {
        StateView::Start => match list_records_pairs(from, until, set, prefix) {
            Some(p) => Ok(Some(p)),
            None => Err((ErrorKind::Internal, time_out_of_range())),
        },
        StateView::Continuing(t) => Ok(Some(resumption_pairs(t))),
        StateView::Done => Ok(None),
    }
}

/// A harvest whose first two pages carry token values `v1` and `v2` and whose
/// third page has none makes exactly three requests: the start of the listing,
/// then a continuation with `v1`, then one with `v2`; after the third page
/// there is no request.
pub proof fn law_three_page_harvest(
    from: Option<Timestamp>,
    until: Option<Timestamp>,
    set: Option<Seq<char>>,
    prefix: Seq<char>,
    v1: Seq<char>,
    v2: Seq<char>,
)
    requires
        list_records_pairs(from, until, set, prefix) is Some,
    ensures
        request_for(StateView::Start, from, until, set, prefix) == Ok::<_, (ErrorKind, Seq<char>)>(
            Some(list_records_pairs(from, until, set, prefix)->0),
        ),
        request_for(after_page(Some(v1)), from, until, set, prefix) == Ok::<
            _,
            (ErrorKind, Seq<char>),
        >(Some(resumption_pairs(v1))),
        request_for(after_page(Some(v2)), from, until, set, prefix) == Ok::<
            _,
            (ErrorKind, Seq<char>),
        >(Some(resumption_pairs(v2))),
        request_for(after_page(None), from, until, set, prefix) == Ok::<
            Option<QueryPairs>,
            (ErrorKind, Seq<char>),
        >(None),
{
}

/// The records of the pages, one page after another.
pub open spec fn concat_pages<T>(ps: Seq<Seq<T>>) -> Seq<T>
    decreases ps.len(),
{
    if ps.len() == 0 {
        seq![]
    } else {
        concat_pages(ps.drop_last()) + ps.last()
    }
}

/// Taking pages in two runs gives the records of the first run followed by
/// those of the second: no page's records move past another's.
pub proof fn law_pages_keep_order<T>(a: Seq<Seq<T>>, b: Seq<Seq<T>>)
    ensures
        concat_pages(a + b) == concat_pages(a) + concat_pages(b),
    decreases b.len(),
{
    if b.len() == 0 {
        assert(a + b =~= a);
        assert(concat_pages(a) + concat_pages(b) =~= concat_pages(a));
    } else {
        let b0 = b.drop_last();
        law_pages_keep_order(a, b0);
        assert((a + b).drop_last() =~= a + b0);
        assert((a + b).last() == b.last());
        assert(concat_pages(a + b) =~= concat_pages(a) + concat_pages(b));
    }
}

/// Three pages give their records one page after another.
pub proof fn law_three_pages<T>(p1: Seq<T>, p2: Seq<T>, p3: Seq<T>)
    ensures
        concat_pages(seq![p1, p2, p3]) == p1 + p2 + p3,
{
    let s0 = Seq::<Seq<T>>::empty();
    let s1 = s0.push(p1);
    let s2 = s1.push(p2);
    let s3 = s2.push(p3);
    assert(s1.drop_last() =~= s0);
    assert(s2.drop_last() =~= s1);
    assert(s3.drop_last() =~= s2);
    assert(concat_pages(s0) =~= Seq::<T>::empty());
    assert(concat_pages(s1) =~= p1);
    assert(concat_pages(s2) =~= p1 + p2);
    assert(concat_pages(s3) =~= p1 + p2 + p3);
    assert(s3 =~= seq![p1, p2, p3]);
}

/// A full harvest in progress: its state and the records of the pages taken so far.
pub struct Harvest<M> {
    state: HarvestState,
    records: Vec<Record<M>>,
    pages: Ghost<Seq<Seq<Record<M>>>>,
}

impl<M: View> Harvest<M> {
    pub closed spec fn state_spec(&self) -> StateView {
        self.state@
    }

    pub closed spec fn records_spec(&self) -> Seq<Record<M>> {
        self.records@
    }

    /// The record lists of the pages taken so far, in the order they came.
    pub closed spec fn pages(&self) -> Seq<Seq<Record<M>>> {
        self.pages@
    }

    /// The records held are those of the pages taken, in page order.
    pub open spec fn wf(&self) -> bool {
        self.records_spec() == concat_pages(self.pages())
    }

    pub fn new() -> (r: Harvest<M>)
        ensures
            r.wf(),
            r.state_spec() == StateView::Start,
            r.pages() == Seq::<Seq<Record<M>>>::empty(),
            r.records_spec() == Seq::<Record<M>>::empty(),
    {
        let r = Harvest {
            state: HarvestState::Start,
            records: Vec::new(),
            pages: Ghost(Seq::empty()),
        };
        assert(r.records@ =~= concat_pages(r.pages@));
        r
    }

    pub fn state(&self) -> (r: &HarvestState)
        ensures
            r@ == self.state_spec(),
    {
        &self.state
    }

    pub fn is_done(&self) -> (r: bool)
        ensures
            r == (self.state_spec() is Done),
    {
        match self.state {
            HarvestState::Done => true,
            _ => false,
        }
    }

    pub fn records(&self) -> (r: &Vec<Record<M>>)
        ensures
            r@ == self.records_spec(),
    {
        &self.records
    }

    /// The parameters of the next request in the vocabulary `F`: the listing
    /// filters at the start, the token value alone when continuing, and none
    /// when done.
    pub fn next_params<F: Format<Metadata = M>>(&self, params: &Params) -> (r: Result<
        Option<Vec<(String, String)>>,
        Error,
    >)
        ensures
            match request_for(
                self.state_spec(),
                params.from,
                params.until,
                params.set.deep_view(),
                F::prefix_spec(),
            ) {
                Ok(Some(p)) => r matches Ok(Some(v)) && v.deep_view() == p,
                Ok(None) => r matches Ok(None),
                Err(ev) => r matches Err(e) && e@ == ev,
            },
    {
        match &self.state {
            HarvestState::Start => {
                let v = list_records_params::<F>(params)?;
                Ok(Some(v))
            },
            HarvestState::Continuing(t) => Ok(Some(resumption_params(t.as_str()))),
            HarvestState::Done => Ok(None),
        }
    }

    /// Takes in the page that answered the last request: its records follow
    /// those held, and its token value, if any, is the next state.
    pub fn accept(&mut self, page: ListRecords<M>)
        requires
            old(self).wf(),
            !(old(self).state_spec() is Done),
        ensures
            final(self).wf(),
            final(self).pages() == old(self).pages().push(page.records@),
            final(self).records_spec() == old(self).records_spec() + page.records@,
            final(self).state_spec() == after_page(next_token(page@.2)),
    {
        let next = page.next_token();
        let ghost added = page.records@;
        let mut page = page;
        let ghost ps = self.pages@;
        self.records.append(&mut page.records);
        self.pages = Ghost(ps.push(added));
        assert(self.pages@.drop_last() =~= ps);
        self.state = match next {
            Some(v) => HarvestState::Continuing(v),
            None => HarvestState::Done,
        };
    }

    /// The records of every page taken, in page order.
    pub fn into_records(self) -> (r: Vec<Record<M>>)
        requires
            self.wf(),
        ensures
            r@ == concat_pages(self.pages()),
    {
        self.records
    }
}

} // verus!
