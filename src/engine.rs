use tantivy::collector::TopDocs;
use tantivy::query::QueryParser;
use tantivy::schema::{Field, Value};
use tantivy::{Searcher, TantivyDocument};
use vstd::prelude::*;

use crate::catalog::Catalog;
use crate::course::{tags_of, Class};
use crate::filter::Filter;
use crate::rank::{flagged_first, prefix_first, prefix_flags};
use crate::tokenizer::{lower_of, lowercase};

verus! {

/// How many records a page holds before the search stops widening its window.
pub const PAGE_SIZE: usize = 50;

#[verifier::external_type_specification]
#[verifier::external_body]
pub struct ExSearcher(tantivy::Searcher);

#[verifier::external_type_specification]
#[verifier::external_body]
pub struct ExQueryParser(tantivy::query::QueryParser);

#[verifier::external_type_specification]
#[verifier::external_body]
pub struct ExField(tantivy::schema::Field);


/// A search request: keywords, where in the ranking to start, and a filter.
pub struct Query {
    pub keywords: String,
    pub offset: usize,
    pub filters: Filter,
}

/// Why a ranked window could not be read.
#[derive(Debug)]
pub enum SearchError {
    /// The keywords do not parse as a query.
    QueryParse,
    /// The index failed while searching or loading a hit.
    Index,
}

/// The committed full-text index over the catalog, ready to be searched.
///
/// Each indexed document stores, in `position_field`, the catalog position of
/// the record it was built from.
pub struct TextIndex {
    pub searcher: Searcher,
    pub parser: QueryParser,
    pub position_field: Field,
}

/// Relies on tantivy's QueryParser::parse_query, then Searcher::search with a
/// TopDocs collector (at most `limit` hits, best first, after skipping
/// `offset` of them), then Searcher::doc on each hit, with the addresses that
/// search gave, to read the catalog position stored in `position_field`
/// (`None` where it has none). TopDocs panics on a limit of 0, and sizes a
/// buffer by twice `limit + offset`.
#[verifier::external_body]
fn top_hits(index: &TextIndex, keywords: &str, limit: usize, offset: usize) -> (r: Result<
    Vec<Option<u64>>,
    SearchError,
>)
    requires
        limit > 0,
        limit + offset <= usize::MAX / 64,
    ensures
        r matches Ok(hits) ==> hits@.len() <= limit,
{
    let query = match index.parser.parse_query(keywords) {
        Ok(q) => q,
        Err(_) => return Err(SearchError::QueryParse),
    };
    let collector = TopDocs::with_limit(limit).and_offset(offset);
    let Ok(hits) = index.searcher.search(&query, &collector) else { return Err(SearchError::Index) };
    let mut out = Vec::new();
    for (_score, addr) in hits {
        let Ok(d) = index.searcher.doc::<TantivyDocument>(addr) else { return Err(SearchError::Index) };
        out.push(d.get_first(index.position_field).and_then(|v| v.as_u64()));
    }
    Ok(out)
}

/// One ranked window: the stored catalog position of each of at most `limit`
/// hits for `keywords`, best first, after skipping `offset` hits.
pub fn ranked_window(index: &TextIndex, keywords: &str, limit: usize, offset: usize) -> (r: Result<
    Vec<Option<u64>>,
    SearchError,
>)
    requires
        limit > 0,
        limit + offset <= usize::MAX / 64,
    ensures
        r matches Ok(hits) ==> hits@.len() <= limit,
{
    top_hits(index, keywords, limit, offset)
}

/// Whether a hit names a record of the catalog that passes the filter.
pub open spec fn admitted(records: Seq<Class>, f: Filter, hit: Option<u64>) -> bool {
    match hit {
        Some(p) => p < records.len() && f.admits(tags_of(records[p as int])),
        None => false,
    }
}

/// The catalog positions of the hits that are admitted, in ranked order.
pub open spec fn survivors(records: Seq<Class>, f: Filter, hits: Seq<Option<u64>>) -> Seq<usize>
    decreases hits.len(),
{
    if hits.len() == 0 {
        seq![]
    } else {
        let n = hits.len() - 1;
        survivors(records, f, hits.take(n)) + if admitted(records, f, hits[n]) {
            seq![hits[n].unwrap() as usize]
        } else {
            seq![]
        }
    }
}

/// Whether every entry of a page is a catalog position whose record passes the filter.
pub open spec fn valid_page(records: Seq<Class>, f: Filter, page: Seq<usize>) -> bool {
    forall|i: int|
        0 <= i < page.len() ==> (#[trigger] page[i]) < records.len() && f.admits(
            tags_of(records[page[i] as int]),
        )
}

proof fn lemma_survivors_valid(records: Seq<Class>, f: Filter, hits: Seq<Option<u64>>)
    requires
        records.len() <= usize::MAX,
    ensures
        valid_page(records, f, survivors(records, f, hits)),
        survivors(records, f, hits).len() <= hits.len(),
    decreases hits.len(),
{
    if hits.len() > 0 {
        let n = hits.len() - 1;
        lemma_survivors_valid(records, f, hits.take(n));
        let front = survivors(records, f, hits.take(n));
        let all = survivors(records, f, hits);
        assert forall|i: int| 0 <= i < all.len() implies (#[trigger] all[i]) < records.len()
            && f.admits(tags_of(records[all[i] as int])) by {
            if i < front.len() {
                assert(all[i] == front[i]);
            }
        }
    }
}

/// Appends to `page`, in ranked order, the position of each hit that names a
/// record of the catalog passing `filter`; a hit outside the catalog is skipped.
pub fn collect_window(
    catalog: &Catalog,
    filter: &Filter,
    hits: &Vec<Option<u64>>,
    page: &mut Vec<usize>,
)
    ensures
        final(page)@ == old(page)@ + survivors(catalog.records(), *filter, hits@),
{
    let ghost start = page@;
    let mut i: usize = 0;
    while i < hits.len()
        invariant
            i <= hits@.len(),
            page@ == start + survivors(catalog.records(), *filter, hits@.take(i as int)),
        decreases hits.len() - i,
    {
        proof {
            assert(hits@.take(i + 1).take(i as int) =~= hits@.take(i as int));
        }
        match hits[i] {
            Some(p) => {
                if p < catalog.len() as u64 {
                    let pos = p as usize;
                    match catalog.get(pos) {
                        Some(c) => {
                            if filter.filter(c) {
                                page.push(pos);
                            }
                        },
                        None => {},
                    }
                }
            },
            None => {},
        }
        proof {
            assert(page@ =~= start + survivors(catalog.records(), *filter, hits@.take(i + 1)));
        }
        i = i + 1;
    }
    proof {
        assert(hits@.take(hits@.len() as int) =~= hits@);
    }
}

/// The start of the next ranked window, or `None` where the search stops.
pub open spec fn next_window_at(page_len: int, window_len: int, at: int, n: int) -> Option<usize> {
    if window_len == 0 || page_len >= PAGE_SIZE || at + PAGE_SIZE >= n {
        None
    } else {
        Some((at + PAGE_SIZE) as usize)
    }
}

/// Each further window starts `PAGE_SIZE` results later and still inside the
/// index, so a search reads at most `n / PAGE_SIZE + 1` windows, however many
/// records the filter rejects.
pub proof fn lemma_windows_advance(page_len: int, window_len: int, at: int, n: int)
    requires
        0 <= at < n <= usize::MAX,
    ensures
        next_window_at(page_len, window_len, at, n) matches Some(next) ==> next == at + PAGE_SIZE
            && at < next < n,
{
}

/// Where the next ranked window starts, after a window of `window_len` hits
/// read at `at` left `page_len` records on the page, over an index of `n`
/// documents; `None` where the search stops: the window was empty, the page is
/// full, or the next window would start past the last document.
pub fn next_window(page_len: usize, window_len: usize, at: usize, n: usize) -> (r: Option<usize>)
    ensures
        r == next_window_at(page_len as int, window_len as int, at as int, n as int),
{
    if window_len == 0 || page_len >= PAGE_SIZE || at >= n || n - at <= PAGE_SIZE {
        None
    } else {
        Some(at + PAGE_SIZE)
    }
}

/// The admitted positions of a run of windows, window after window, each in
/// ranked order.
pub open spec fn gathered(records: Seq<Class>, f: Filter, ws: Seq<Seq<Option<u64>>>) -> Seq<usize>
    decreases ws.len(),
{
    if ws.len() == 0 {
        seq![]
    } else {
        gathered(records, f, ws.drop_last()) + survivors(records, f, ws.last())
    }
}

/// Whether `ws` is a run of windows that the search reads from `offset` over
/// an index of `n` documents: each window holds at most `PAGE_SIZE` hits and
/// starts `PAGE_SIZE` results after the one before; `next_window_at` goes on
/// after every window but the last, and stops after the last.
pub open spec fn window_run(
    records: Seq<Class>,
    f: Filter,
    offset: int,
    n: int,
    ws: Seq<Seq<Option<u64>>>,
) -> bool {
    &&& ws.len() > 0
    &&& forall|k: int| 0 <= k < ws.len() ==> (#[trigger] ws[k]).len() <= PAGE_SIZE
    &&& forall|k: int|
        0 <= k < ws.len() - 1 ==> next_window_at(
            gathered(records, f, ws.take(k + 1)).len() as int,
            (#[trigger] ws[k]).len() as int,
            offset + k * PAGE_SIZE,
            n,
        ) == Some((offset + (k + 1) * PAGE_SIZE) as usize)
    &&& next_window_at(
        gathered(records, f, ws).len() as int,
        ws.last().len() as int,
        offset + (ws.len() - 1) * PAGE_SIZE,
        n,
    ) is None
}

/// Gathers the filtered hits for `keywords` window after window of
/// `PAGE_SIZE` ranked results, from `offset` on, as `next_window` decides:
/// until `PAGE_SIZE` records have passed, a window comes back empty, or the
/// windows pass the end of the catalog. The page is what the filter admits of
/// the windows read, in the order read; an offset past the catalog reads
/// nothing and gives an empty page.
pub fn gather_page(
    index: &TextIndex,
    catalog: &Catalog,
    keywords: &str,
    filter: &Filter,
    offset: usize,
) -> (r: Result<Vec<usize>, SearchError>)
    requires
        catalog.records().len() + PAGE_SIZE <= usize::MAX / 64,
    ensures
        offset >= catalog.records().len() ==> (r matches Ok(p) && p@.len() == 0),
        r matches Ok(p) ==> valid_page(catalog.records(), *filter, p@) && p@.len() < 2 * PAGE_SIZE,
        r matches Ok(p) ==> (offset < catalog.records().len() ==> exists|
            ws: Seq<Seq<Option<u64>>>,
        |
            window_run(catalog.records(), *filter, offset as int, catalog.records().len() as int, ws)
                && p@ == gathered(catalog.records(), *filter, ws)),
{
    let mut page: Vec<usize> = Vec::new();
    let n = catalog.len();
    if offset >= n {
        return Ok(page);
    }
    let ghost records = catalog.records();
    let ghost f = *filter;
    let ghost mut done: Seq<Seq<Option<u64>>> = seq![];
    let mut at = offset;
    loop
        invariant_except_break
            at == offset + done.len() * PAGE_SIZE,
            page@.len() < PAGE_SIZE,
            forall|k: int|
                0 <= k < done.len() ==> next_window_at(
                    gathered(records, f, done.take(k + 1)).len() as int,
                    (#[trigger] done[k]).len() as int,
                    offset + k * PAGE_SIZE,
                    n as int,
                ) == Some((offset + (k + 1) * PAGE_SIZE) as usize),
        invariant
            n == records.len(),
            records == catalog.records(),
            f == *filter,
            n + PAGE_SIZE <= usize::MAX / 64,
            offset < n,
            at < n,
            valid_page(records, f, page@),
            page@ == gathered(records, f, done),
            forall|k: int| 0 <= k < done.len() ==> (#[trigger] done[k]).len() <= PAGE_SIZE,
        ensures
            records == catalog.records(),
            f == *filter,
            valid_page(records, f, page@),
            page@.len() < 2 * PAGE_SIZE,
            window_run(records, f, offset as int, n as int, done),
            page@ == gathered(records, f, done),
        decreases n - at,
    {
        let hits = match ranked_window(index, keywords, PAGE_SIZE, at) {
            Ok(h) => h,
            Err(e) => return Err(e),
        };
        let ghost before = page@;
        let ghost old_done = done;
        collect_window(catalog, filter, &hits, &mut page);
        proof {
            lemma_survivors_valid(records, f, hits@);
            let s = survivors(records, f, hits@);
            assert forall|i: int| 0 <= i < page@.len() implies (#[trigger] page@[i])
                < records.len() && f.admits(tags_of(records[page@[i] as int])) by {
                if i >= before.len() {
                    assert(page@[i] == s[i - before.len()]);
                } else {
                    assert(page@[i] == before[i]);
                }
            }
            done = old_done.push(hits@);
            assert(done.drop_last() =~= old_done);
            assert(page@ == gathered(records, f, done));
            assert forall|k: int| 0 <= k < old_done.len() implies done.take(k + 1)
                =~= old_done.take(k + 1) && done[k] == old_done[k] by {}
            assert(done.take(old_done.len() + 1 as int) =~= done);
        }
        match next_window(page.len(), hits.len(), at, n) {
            Some(next) => {
                at = next;
            },
            None => {
                break;
            },
        }
    }
    Ok(page)
}

/// Finishes a search from what was gathered: a failed gathering gives an
/// empty page; a gathered page is reordered so that the records whose code
/// begins with the keywords (both lowercased) come first, each group keeping
/// its order.
pub fn finish_search(
    catalog: &Catalog,
    query: &Query,
    gathered: Result<Vec<usize>, SearchError>,
) -> (r: Vec<usize>)
    requires
        gathered matches Ok(p) ==> forall|i: int|
            0 <= i < p@.len() ==> #[trigger] p@[i] < catalog.records().len(),
    ensures
        gathered is Err ==> r@.len() == 0,
        gathered matches Ok(p) ==> r@ == flagged_first(
            p@,
            prefix_flags(folded_codes_of(catalog.records(), p@), lower_of(query.keywords@)),
        ),
{
    match gathered {
        Err(_) => Vec::new(),
        Ok(page) => {
            let folded = lowercase(query.keywords.as_str());
            let codes = folded_codes(catalog, &page);
            proof {
                assert(codes@.map_values(|c: String| c@) =~= folded_codes_of(
                    catalog.records(),
                    page@,
                ));
            }
            prefix_first(&page, &codes, folded.as_str())
        },
    }
}

/// Runs a search: gathers the filtered page for the query's keywords and
/// offset, then finishes it with `finish_search`. A query that fails,
/// malformed keywords included, gives an empty page.
pub fn search(index: &TextIndex, catalog: &Catalog, query: &Query) -> (r: Vec<usize>)
    requires
        catalog.records().len() + PAGE_SIZE <= usize::MAX / 64,
    ensures
        query.offset >= catalog.records().len() ==> r@.len() == 0,
        valid_page(catalog.records(), query.filters, r@),
        r@.len() == 0 || exists|ws: Seq<Seq<Option<u64>>>|
            window_run(
                catalog.records(),
                query.filters,
                query.offset as int,
                catalog.records().len() as int,
                ws,
            ) && r@ == flagged_first(
                gathered(catalog.records(), query.filters, ws),
                prefix_flags(
                    folded_codes_of(
                        catalog.records(),
                        gathered(catalog.records(), query.filters, ws),
                    ),
                    lower_of(query.keywords@),
                ),
            ),
{
    let g = gather_page(index, catalog, query.keywords.as_str(), &query.filters, query.offset);
    let ghost g0 = g;
    let r = finish_search(catalog, query, g);
    proof {
        if let Ok(page) = g0 {
            let flags = prefix_flags(
                folded_codes_of(catalog.records(), page@),
                lower_of(query.keywords@),
            );
            crate::rank::lemma_flagged_first_permutes(page@, flags);
            assert forall|i: int| 0 <= i < r@.len() implies (#[trigger] r@[i])
                < catalog.records().len() && query.filters.admits(
                tags_of(catalog.records()[r@[i] as int]),
            ) by {
                broadcast use vstd::seq_lib::group_to_multiset_ensures;

                assert(r@.contains(r@[i]));
                assert(r@.to_multiset().count(r@[i]) > 0);
                assert(page@.to_multiset().count(r@[i]) > 0);
                assert(page@.contains(r@[i]));
            }
        }
    }
    r
}

/// The lowercase code of the record at each position of `page`, in order.
pub open spec fn folded_codes_of(records: Seq<Class>, page: Seq<usize>) -> Seq<Seq<char>> {
    Seq::new(page.len(), |i: int| lower_of(records[page[i] as int].code@))
}

/// The lowercase code of each record of `page`, in order.
fn folded_codes(catalog: &Catalog, page: &Vec<usize>) -> (r: Vec<String>)
    requires
        forall|i: int| 0 <= i < page@.len() ==> #[trigger] page@[i] < catalog.records().len(),
    ensures
        r@.len() == page@.len(),
        forall|i: int|
            0 <= i < page@.len() ==> (#[trigger] r@[i])@ == lower_of(
                catalog.records()[page@[i] as int].code@,
            ),
{
    let mut out: Vec<String> = Vec::new();
    let mut i: usize = 0;
    while i < page.len()
        invariant
            forall|i: int| 0 <= i < page@.len() ==> #[trigger] page@[i] < catalog.records().len(),
            i <= page@.len(),
            out@.len() == i,
            forall|k: int|
                0 <= k < i ==> (#[trigger] out@[k])@ == lower_of(
                    catalog.records()[page@[k] as int].code@,
                ),
        decreases page.len() - i,
    {
        let c = catalog.courses();
        let pos = page[i];
        out.push(lowercase(c[pos].code.as_str()));
        i = i + 1;
    }
    out
}

} // verus!
