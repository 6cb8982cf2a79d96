use vstd::prelude::*;

use crate::category_type::CategoryType;
use crate::host::{
    image_list_args, image_size_args, volume_list_args, EntryKind, HostSystem, ToolOutput, WalkEntry,
};
use crate::category::CategoryModel;
use crate::category_type::registry;
use crate::item::{CleanableItem, ItemModel};
use crate::repositories::{ScanError, ScannerRepository};
use crate::scan_result::ScanResult;
use crate::scanner::{found_views, is_full_pass, item_views, result_from, result_of};
use crate::text::{
    contains_str, file_name, file_name_of, first_chars, has_extension, has_extension_exec,
    has_substring, joined, nonblank_lines, parse_u64, parsed_u64, str_eq, trim, trimmed,
    trimmed_lines, views_of,
};

verus! {

/// At most this many regular files are looked at in one temporary-files scan.
pub const MAX_TEMP_FILES: usize = 100;

/// At most this many dependency folders are taken from one project directory.
pub const MAX_PACKAGE_DIRS: usize = 20;

/// Size given to each dangling volume, whose real size cannot be queried.
pub const VOLUME_SIZE_ESTIMATE: u64 = 100000000;

/// The `n` first elements, or all of them where there are fewer.
pub open spec fn first_n<A>(s: Seq<A>, n: int) -> Seq<A> {
    if n < s.len() {
        s.take(n)
    } else {
        s
    }
}

/// A log file is one whose extension is "log" or "LOG", or whose path holds ".log".
pub open spec fn is_log_path(path: Seq<char>) -> bool {
    has_extension(file_name_of(path), "log"@) || has_extension(file_name_of(path), "LOG"@)
        || has_substring(path, ".log"@)
}

pub open spec fn has_content(e: WalkEntry) -> bool {
    e.size matches Some(s) && s > 0
}

pub open spec fn file_entry() -> spec_fn(WalkEntry) -> bool {
    |e: WalkEntry| e.kind == EntryKind::File
}

pub open spec fn content_entry() -> spec_fn(WalkEntry) -> bool {
    |e: WalkEntry| has_content(e)
}

pub open spec fn log_entry() -> spec_fn(WalkEntry) -> bool {
    |e: WalkEntry| e.kind == EntryKind::File && is_log_path(e.path@) && has_content(e)
}

pub open spec fn package_entry() -> spec_fn(WalkEntry) -> bool {
    |e: WalkEntry| e.kind == EntryKind::Directory && file_name_of(e.path@) == "node_modules"@
}

/// The item an entry stands for: its path and its size.
pub open spec fn entry_item(e: WalkEntry) -> ItemModel {
    ItemModel {
        path: e.path@,
        size: match e.size {
            Some(s) => s,
            None => 0,
        },
    }
}

/// The items of the entries that `keep` accepts, in walk order.
pub open spec fn items_where(entries: Seq<WalkEntry>, keep: spec_fn(WalkEntry) -> bool) -> Seq<
    ItemModel,
> {
    entries.filter(keep).map_values(|e: WalkEntry| entry_item(e))
}

/// Sum of the sizes of the file entries, without any bound.
pub open spec fn file_sizes_sum(entries: Seq<WalkEntry>) -> int
    decreases entries.len(),
{
    if entries.len() == 0 {
        0
    } else {
        file_sizes_sum(entries.drop_last()) + match entries.last().size {
            Some(s) => if entries.last().kind == EntryKind::File {
                s as int
            } else {
                0
            },
            None => 0,
        }
    }
}

/// The lines a listing run printed, trimmed, blank ones left out; nothing
/// where the tool could not run or failed.
pub open spec fn listed_names(output: Option<ToolOutput>) -> Seq<Seq<char>> {
    match output {
        Some(o) => if o.success {
            trimmed_lines(o.stdout@)
        } else {
            Seq::empty()
        },
        None => Seq::empty(),
    }
}

/// The size an inspect run printed, or 0 where it printed no number.
pub open spec fn reported_size(output: Option<ToolOutput>) -> u64 {
    match output {
        Some(o) => match parsed_u64(trim(o.stdout@)) {
            Some(n) => n,
            None => 0,
        },
        None => 0,
    }
}

/// Label of an image item: its identifier cut to twelve characters.
pub open spec fn image_label(id: Seq<char>) -> Seq<char> {
    "Docker Image: "@ + first_n(id, 12)
}

pub open spec fn volume_item(name: Seq<char>) -> ItemModel {
    ItemModel { path: "Docker Volume: "@ + name, size: VOLUME_SIZE_ESTIMATE }
}

/// What a strategy reports: what it found, or one zero-byte item carrying
/// `label` where it found nothing.
pub open spec fn with_sentinel(items: Seq<ItemModel>, label: Seq<char>) -> Seq<ItemModel> {
    if items.len() == 0 {
        seq![ItemModel { path: label, size: 0 }]
    } else {
        items
    }
}

pub proof fn lemma_items_where_push(s: Seq<WalkEntry>, e: WalkEntry, keep: spec_fn(WalkEntry) -> bool)
    ensures
        s.push(e).filter(keep) == (if keep(e) {
            s.filter(keep).push(e)
        } else {
            s.filter(keep)
        }),
        items_where(s.push(e), keep) == (if keep(e) {
            items_where(s, keep).push(entry_item(e))
        } else {
            items_where(s, keep)
        }),
{
    reveal(Seq::filter);
    assert(s.push(e).drop_last() =~= s);
    if keep(e) {
        assert(items_where(s.push(e), keep) =~= items_where(s, keep).push(entry_item(e)));
    }
}

pub proof fn lemma_take_push<A>(s: Seq<A>, k: int)
    requires
        0 <= k < s.len(),
    ensures
        s.take(k + 1) == s.take(k).push(s[k]),
{
    assert(s.take(k + 1) =~= s.take(k).push(s[k]));
}

pub proof fn lemma_file_sizes_sum_nonneg(entries: Seq<WalkEntry>)
    ensures
        file_sizes_sum(entries) >= 0,
    decreases entries.len(),
{
    if entries.len() > 0 {
        lemma_file_sizes_sum_nonneg(entries.drop_last());
    }
}

/// The item an entry stands for.
fn item_of(e: &WalkEntry) -> (r: CleanableItem)
    ensures
        r@ == entry_item(*e),
{
    let size = match e.size {
        Some(s) => s,
        None => 0,
    };
    CleanableItem::new(e.path.clone(), size)
}

/// Whether the path names a log file.
pub fn is_log_path_exec(path: &str) -> (r: bool)
    ensures
        r == is_log_path(path@),
{
    let name = file_name(path);
    has_extension_exec(name.as_str(), "log") || has_extension_exec(name.as_str(), "LOG")
        || contains_str(path, ".log")
}

/// The log files among walked entries, in walk order: regular files with a
/// log name and at least one byte.
pub fn log_items(entries: &[WalkEntry]) -> (r: Vec<CleanableItem>)
    ensures
        item_views(r@) == items_where(entries@, log_entry()),
{
    let mut out: Vec<CleanableItem> = Vec::new();
    let mut k: usize = 0;
    proof {
        reveal(Seq::filter);
        assert(entries@.take(0) =~= Seq::<WalkEntry>::empty());
        assert(item_views(out@) =~= items_where(entries@.take(0), log_entry()));
    }
    while k < entries.len()
        invariant
            k <= entries@.len(),
            item_views(out@) == items_where(entries@.take(k as int), log_entry()),
        decreases entries@.len() - k,
    {
        let e = &entries[k];
        proof {
            lemma_take_push(entries@, k as int);
            lemma_items_where_push(entries@.take(k as int), *e, log_entry());
        }
        let keep = match e.size {
            Some(s) => e.kind == EntryKind::File && s > 0 && is_log_path_exec(e.path.as_str()),
            None => false,
        };
        if keep {
            let item = item_of(e);
            out.push(item);
            assert(item_views(out@) =~= item_views(out@.drop_last()).push(item@));
        }
        k += 1;
    }
    assert(entries@.take(k as int) =~= entries@);
    out
}

/// The temporary files among walked entries: of the first `limit` regular
/// files in walk order, those with at least one byte.
pub fn temp_items(entries: &[WalkEntry], limit: usize) -> (r: Vec<CleanableItem>)
    ensures
        item_views(r@) == items_where(
            first_n(entries@.filter(file_entry()), limit as int),
            content_entry(),
        ),
{
    let mut out: Vec<CleanableItem> = Vec::new();
    let mut seen: usize = 0;
    let mut k: usize = 0;
    proof {
        reveal(Seq::filter);
        assert(entries@.take(0) =~= Seq::<WalkEntry>::empty());
        assert(item_views(out@) =~= items_where(
            entries@.take(0).filter(file_entry()),
            content_entry(),
        ));
    }
    while k < entries.len() && seen < limit
        invariant
            k <= entries@.len(),
            seen <= limit,
            seen == entries@.take(k as int).filter(file_entry()).len(),
            item_views(out@) == items_where(
                entries@.take(k as int).filter(file_entry()),
                content_entry(),
            ),
        decreases entries@.len() - k,
    {
        let e = &entries[k];
        let ghost files = entries@.take(k as int).filter(file_entry());
        proof {
            lemma_take_push(entries@, k as int);
            lemma_items_where_push(entries@.take(k as int), *e, file_entry());
            lemma_items_where_push(files, *e, content_entry());
        }
        if e.kind == EntryKind::File {
            seen += 1;
            let keep = match e.size {
                Some(s) => s > 0,
                None => false,
            };
            if keep {
                let item = item_of(e);
                out.push(item);
                assert(item_views(out@) =~= item_views(out@.drop_last()).push(item@));
            }
        }
        k += 1;
    }
    proof {
        let a = entries@.take(k as int);
        let b = entries@.skip(k as int);
        assert(entries@ =~= a + b);
        Seq::filter_distributes_over_add(a, b, file_entry());
        if seen == limit {
            assert(first_n(entries@.filter(file_entry()), limit as int) =~= a.filter(file_entry()));
        } else {
            assert(a =~= entries@);
        }
    }
    out
}

/// The dependency folders among walked entries: of the directories named
/// "node_modules", the first `limit` in walk order.
pub fn package_dirs(entries: &[WalkEntry], limit: usize) -> (r: Vec<String>)
    ensures
        views_of(r@) == first_n(entries@.filter(package_entry()), limit as int).map_values(
            |e: WalkEntry| e.path@,
        ),
        r@.len() <= limit,
        forall|i: int| 0 <= i < r@.len() ==> file_name_of(#[trigger] r@[i]@) == "node_modules"@,
{
    let mut out: Vec<String> = Vec::new();
    let mut k: usize = 0;
    proof {
        reveal(Seq::filter);
        assert(entries@.take(0) =~= Seq::<WalkEntry>::empty());
        assert(views_of(out@) =~= entries@.take(0).filter(package_entry()).map_values(
            |e: WalkEntry| e.path@,
        ));
    }
    while k < entries.len() && out.len() < limit
        invariant
            k <= entries@.len(),
            out@.len() <= limit,
            forall|i: int| 0 <= i < out@.len() ==> file_name_of(#[trigger] out@[i]@) == "node_modules"@,
            out@.len() == entries@.take(k as int).filter(package_entry()).len(),
            views_of(out@) == entries@.take(k as int).filter(package_entry()).map_values(
                |e: WalkEntry| e.path@,
            ),
        decreases entries@.len() - k,
    {
        let e = &entries[k];
        proof {
            lemma_take_push(entries@, k as int);
            lemma_items_where_push(entries@.take(k as int), *e, package_entry());
        }
        if e.kind == EntryKind::Directory {
            let name = file_name(e.path.as_str());
            if str_eq(name.as_str(), "node_modules") {
                let path = e.path.clone();
                let ghost before = out@;
                out.push(path);
                proof {
                    let files = entries@.take(k as int).filter(package_entry());
                    assert(package_entry()(*e));
                    assert(entries@.take(k + 1).filter(package_entry()) == files.push(*e));
                    assert(views_of(out@) =~= views_of(before).push(e.path@));
                    assert(files.push(*e).map_values(|e: WalkEntry| e.path@) =~= files.map_values(
                        |e: WalkEntry| e.path@,
                    ).push(e.path@));
                }
            }
        }
        k += 1;
    }
    proof {
        let a = entries@.take(k as int);
        let b = entries@.skip(k as int);
        assert(entries@ =~= a + b);
        Seq::filter_distributes_over_add(a, b, package_entry());
        if out@.len() == limit {
            assert(first_n(entries@.filter(package_entry()), limit as int) =~= a.filter(
                package_entry(),
            ));
        } else {
            assert(a =~= entries@);
        }
    }
    out
}

/// Total size of the files among walked entries (`u64::MAX` where it does not fit).
pub fn directory_size(entries: &[WalkEntry]) -> (r: u64)
    ensures
        r == crate::category::saturated(file_sizes_sum(entries@)),
{
    let mut total: u64 = 0;
    let mut k: usize = 0;
    while k < entries.len()
        invariant
            k <= entries@.len(),
            total == crate::category::saturated(file_sizes_sum(entries@.take(k as int))),
        decreases entries@.len() - k,
    {
        proof {
            assert(entries@.take(k + 1).drop_last() =~= entries@.take(k as int));
            assert(entries@.take(k + 1).last() == entries@[k as int]);
            lemma_file_sizes_sum_nonneg(entries@.take(k as int));
        }
        if entries[k].kind == EntryKind::File {
            match entries[k].size {
                Some(s) => {
                    total = total.saturating_add(s);
                },
                None => {},
            }
        }
        k += 1;
    }
    assert(entries@.take(k as int) =~= entries@);
    total
}

/// The names a listing run printed, one per non-blank line.
pub fn listed(output: &Option<ToolOutput>) -> (r: Vec<String>)
    ensures
        views_of(r@) == listed_names(*output),
{
    match output {
        Some(o) => if o.success {
            nonblank_lines(o.stdout.as_str())
        } else {
            let r: Vec<String> = Vec::new();
            assert(views_of(r@) =~= Seq::<Seq<char>>::empty());
            r
        },
        None => {
            let r: Vec<String> = Vec::new();
            assert(views_of(r@) =~= Seq::<Seq<char>>::empty());
            r
        },
    }
}

/// The size an inspect run printed, or 0 where it printed no number.
pub fn image_size(output: &Option<ToolOutput>) -> (r: u64)
    ensures
        r == reported_size(*output),
{
    match output {
        Some(o) => {
            let text = trimmed(o.stdout.as_str());
            match parse_u64(text.as_str()) {
                Some(n) => n,
                None => 0,
            }
        },
        None => 0,
    }
}

/// The item of one dangling image.
pub fn image_item(id: &str, size: u64) -> (r: CleanableItem)
    ensures
        r@ == (ItemModel { path: image_label(id@), size }),
{
    let short = first_chars(id, 12);
    assert(id@.take(id@.len() as int) =~= id@);
    CleanableItem::new(joined("Docker Image: ", short.as_str()), size)
}

/// One item per dangling volume that a listing run printed, each with the
/// estimated size.
pub fn volume_items(output: &Option<ToolOutput>) -> (r: Vec<CleanableItem>)
    ensures
        item_views(r@) == listed_names(*output).map_values(|n: Seq<char>| volume_item(n)),
{
    let names = listed(output);
    let mut out: Vec<CleanableItem> = Vec::new();
    let mut k: usize = 0;
    while k < names.len()
        invariant
            k <= names@.len(),
            views_of(names@) == listed_names(*output),
            item_views(out@) == views_of(names@).take(k as int).map_values(
                |n: Seq<char>| volume_item(n),
            ),
        decreases names@.len() - k,
    {
        let item = CleanableItem::new(
            joined("Docker Volume: ", names[k].as_str()),
            VOLUME_SIZE_ESTIMATE,
        );
        let ghost before = out@;
        out.push(item);
        proof {
            let all = views_of(names@);
            assert(item_views(out@) =~= item_views(before).push(volume_item(all[k as int])));
            assert(all.take(k + 1) =~= all.take(k as int).push(all[k as int]));
            assert(all.take(k + 1).map_values(|n: Seq<char>| volume_item(n)) =~= all.take(
                k as int,
            ).map_values(|n: Seq<char>| volume_item(n)).push(volume_item(all[k as int])));
        }
        k += 1;
    }
    assert(views_of(names@).take(k as int) =~= views_of(names@));
    out
}

/// What a strategy reports: the items found, or one zero-byte item carrying
/// `label` where nothing was found.
pub fn or_sentinel(items: Vec<CleanableItem>, label: &str) -> (r: Vec<CleanableItem>)
    ensures
        item_views(r@) == with_sentinel(item_views(items@), label@),
{
    if items.len() == 0 {
        let r = vec![CleanableItem::new(String::from_str(label), 0)];
        assert(item_views(r@) =~= with_sentinel(item_views(items@), label@));
        r
    } else {
        items
    }
}

/// The items of the candidates whose size is not zero, in order.
pub open spec fn sized_items_of(paths: Seq<Seq<char>>, sizes: Seq<u64>) -> Seq<ItemModel>
    decreases sizes.len(),
{
    if sizes.len() == 0 || paths.len() != sizes.len() {
        Seq::empty()
    } else {
        let rest = sized_items_of(paths.drop_last(), sizes.drop_last());
        if sizes.last() > 0 {
            rest.push(ItemModel { path: paths.last(), size: sizes.last() })
        } else {
            rest
        }
    }
}

/// The image items of listed identifiers with their inspected sizes: those
/// whose size is not zero, in listing order.
pub open spec fn image_items_of(ids: Seq<Seq<char>>, sizes: Seq<u64>) -> Seq<ItemModel> {
    sized_items_of(ids.map_values(|id: Seq<char>| image_label(id)), sizes)
}

/// Each candidate becomes an item with its size, unless the size is zero.
pub fn sized_items(paths: &Vec<String>, sizes: &Vec<u64>) -> (r: Vec<CleanableItem>)
    requires
        paths@.len() == sizes@.len(),
    ensures
        item_views(r@) == sized_items_of(views_of(paths@), sizes@),
{
    let mut out: Vec<CleanableItem> = Vec::new();
    let mut k: usize = 0;
    assert(views_of(paths@).take(0) =~= Seq::<Seq<char>>::empty());
    assert(item_views(out@) =~= Seq::<ItemModel>::empty());
    while k < sizes.len()
        invariant
            paths@.len() == sizes@.len(),
            k <= sizes@.len(),
            item_views(out@) == sized_items_of(views_of(paths@).take(k as int), sizes@.take(k as int)),
        decreases sizes@.len() - k,
    {
        proof {
            assert(views_of(paths@).take(k + 1).drop_last() =~= views_of(paths@).take(k as int));
            assert(sizes@.take(k + 1).drop_last() =~= sizes@.take(k as int));
        }
        if sizes[k] > 0 {
            let item = CleanableItem::new(paths[k].clone(), sizes[k]);
            let ghost before = out@;
            out.push(item);
            assert(item_views(out@) =~= item_views(before).push(item@));
        }
        k += 1;
    }
    assert(views_of(paths@).take(k as int) =~= views_of(paths@));
    assert(sizes@.take(k as int) =~= sizes@);
    out
}

/// The items of listed images with their inspected sizes.
pub fn image_items(ids: &Vec<String>, sizes: &Vec<u64>) -> (r: Vec<CleanableItem>)
    requires
        ids@.len() == sizes@.len(),
    ensures
        item_views(r@) == image_items_of(views_of(ids@), sizes@),
{
    let mut labels: Vec<String> = Vec::new();
    let mut k: usize = 0;
    while k < ids.len()
        invariant
            k <= ids@.len(),
            views_of(labels@) == views_of(ids@).take(k as int).map_values(
                |id: Seq<char>| image_label(id),
            ),
        decreases ids@.len() - k,
    {
        let short = first_chars(ids[k].as_str(), 12);
        let text = joined("Docker Image: ", short.as_str());
        assert(ids@[k as int]@.take(ids@[k as int]@.len() as int) =~= ids@[k as int]@);
        let ghost before = labels@;
        labels.push(text);
        assert(views_of(labels@) =~= views_of(before).push(image_label(ids@[k as int]@)));
        assert(views_of(ids@).take(k + 1).map_values(|id: Seq<char>| image_label(id))
            =~= views_of(ids@).take(k as int).map_values(|id: Seq<char>| image_label(id)).push(
            image_label(ids@[k as int]@),
        ));
        k += 1;
    }
    assert(views_of(ids@).take(k as int) =~= views_of(ids@));
    sized_items(&labels, sizes)
}

/// The directories a log scan walks.
pub open spec fn log_roots_of(home: Seq<char>) -> Seq<Seq<char>> {
    seq!["/var/log"@, "/tmp"@, home + "/Library/Logs"@]
}

/// The directories a temporary-files scan walks.
pub open spec fn temp_roots_of(home: Seq<char>) -> Seq<Seq<char>> {
    seq!["/tmp"@, "/var/tmp"@, home + "/Library/Caches"@]
}

/// The project directories searched for dependency folders.
pub open spec fn project_roots_of(home: Seq<char>) -> Seq<Seq<char>> {
    seq![home + "/Projects"@, home + "/Documents"@, home + "/Desktop"@]
}

/// The package-manager caches measured as a whole.
pub open spec fn cache_paths_of(home: Seq<char>) -> Seq<Seq<char>> {
    seq![home + "/.npm"@, home + "/.cargo/registry"@]
}

pub fn log_roots(home: &str) -> (r: Vec<String>)
    ensures
        views_of(r@) == log_roots_of(home@),
{
    let r = vec![String::from_str("/var/log"), String::from_str("/tmp"), joined(home, "/Library/Logs")];
    assert(views_of(r@) =~= log_roots_of(home@));
    r
}

pub fn temp_roots(home: &str) -> (r: Vec<String>)
    ensures
        views_of(r@) == temp_roots_of(home@),
{
    let r = vec![String::from_str("/tmp"), String::from_str("/var/tmp"), joined(home, "/Library/Caches")];
    assert(views_of(r@) =~= temp_roots_of(home@));
    r
}

pub fn project_roots(home: &str) -> (r: Vec<String>)
    ensures
        views_of(r@) == project_roots_of(home@),
{
    let r = vec![joined(home, "/Projects"), joined(home, "/Documents"), joined(home, "/Desktop")];
    assert(views_of(r@) =~= project_roots_of(home@));
    r
}

pub fn cache_paths(home: &str) -> (r: Vec<String>)
    ensures
        views_of(r@) == cache_paths_of(home@),
{
    let r = vec![joined(home, "/.npm"), joined(home, "/.cargo/registry")];
    assert(views_of(r@) =~= cache_paths_of(home@));
    r
}

pub open spec fn image_sentinel() -> Seq<char> {
    "Nenhuma imagem Docker não utilizada encontrada"@
}

pub open spec fn volume_sentinel() -> Seq<char> {
    "Nenhum volume Docker não utilizado encontrado"@
}

pub open spec fn package_sentinel() -> Seq<char> {
    "Nenhum pacote de desenvolvimento encontrado"@
}

/// Dependency folders found in the project directories: named "node_modules",
/// and no more than the cap.
pub open spec fn are_package_dirs(dirs: Seq<Seq<char>>) -> bool {
    dirs.len() <= MAX_PACKAGE_DIRS && forall|i: int|
        0 <= i < dirs.len() ==> file_name_of(#[trigger] dirs[i]) == "node_modules"@
}

/// What the log strategy reports, for whatever the walks met.
pub open spec fn is_log_scan(items: Seq<ItemModel>) -> bool {
    exists|entries: Seq<WalkEntry>| items == #[trigger] items_where(entries, log_entry())
}

/// What the temporary-files strategy reports, for whatever the walks met.
pub open spec fn is_temp_scan(items: Seq<ItemModel>) -> bool {
    exists|entries: Seq<WalkEntry>|
        items == #[trigger] items_where(
            first_n(entries.filter(file_entry()), MAX_TEMP_FILES as int),
            content_entry(),
        )
}

/// What the image strategy reports, for whatever the listing printed and the
/// sizes the inspect runs gave, one per listed identifier.
pub open spec fn is_image_scan(items: Seq<ItemModel>) -> bool {
    exists|listing: Option<ToolOutput>, sizes: Seq<u64>|
        sizes.len() == listed_names(listing).len() && items == with_sentinel(
            #[trigger] image_items_of(listed_names(listing), sizes),
            image_sentinel(),
        )
}

/// One volume item per listed name.
pub open spec fn volume_items_of(names: Seq<Seq<char>>) -> Seq<ItemModel> {
    names.map_values(|n: Seq<char>| volume_item(n))
}

/// What the volume strategy reports, for whatever the listing printed.
pub open spec fn is_volume_scan(items: Seq<ItemModel>) -> bool {
    exists|listing: Option<ToolOutput>|
        items == with_sentinel(
            #[trigger] volume_items_of(listed_names(listing)),
            volume_sentinel(),
        )
}

/// What the package strategy reports: dependency folders, then the two caches
/// of the home directory, each with its measured size, those of size zero left out.
pub open spec fn is_package_scan(items: Seq<ItemModel>) -> bool {
    exists|home: Seq<char>, dirs: Seq<Seq<char>>, sizes: Seq<u64>|
        are_package_dirs(dirs) && sizes.len() == dirs.len() + 2 && items == with_sentinel(
            #[trigger] sized_items_of(dirs + cache_paths_of(home), sizes),
            package_sentinel(),
        )
}

/// What the strategy of a kind reports.
pub open spec fn is_found_for(t: CategoryType, items: Seq<ItemModel>) -> bool {
    match t {
        CategoryType::LogFiles => is_log_scan(items),
        CategoryType::TemporaryFiles => is_temp_scan(items),
        CategoryType::DockerImages => is_image_scan(items),
        CategoryType::DockerVolumes => is_volume_scan(items),
        CategoryType::DevelopmentPackages => is_package_scan(items),
    }
}

/// Scans the host: walks well-known directories and asks the container tool.
pub struct FileSystemScannerRepository<H: HostSystem> {
    host: H,
}

impl<H: HostSystem> FileSystemScannerRepository<H> {
    pub fn new(host: H) -> (r: Self) {
        FileSystemScannerRepository { host }
    }

    /// The host this repository works on.
    pub fn host(&self) -> &H {
        &self.host
    }

    /// Whether the path names a log file: extension "log" or "LOG", or ".log"
    /// somewhere in the path.
    pub fn is_log_file(path: &str) -> (r: bool)
        ensures
            r == is_log_path(path@),
    {
        is_log_path_exec(path)
    }

    /// The entries of several walks, one after the other.
    fn walk_all(&self, roots: &Vec<String>, max_depth: usize) -> (r: Vec<WalkEntry>) {
        let mut all: Vec<WalkEntry> = Vec::new();
        let mut k: usize = 0;
        while k < roots.len()
            invariant
                k <= roots@.len(),
            decreases roots@.len() - k,
        {
            let mut found = self.host.walk(roots[k].as_str(), max_depth);
            all.append(&mut found);
            k += 1;
        }
        all
    }

    /// The log files met under the log directories, three levels down.
    fn scan_log_files(&self) -> (r: Vec<CleanableItem>)
        ensures
            is_log_scan(item_views(r@)),
    {
        let home = self.host.home_dir();
        let roots = log_roots(home.as_str());
        let entries = self.walk_all(&roots, 3);
        let r = log_items(entries.as_slice());
        assert(item_views(r@) == items_where(entries@, log_entry()));
        r
    }

    /// Of the first regular files met under the temporary directories, two
    /// levels down and up to the cap, those with at least one byte.
    fn scan_temp_files(&self) -> (r: Vec<CleanableItem>)
        ensures
            is_temp_scan(item_views(r@)),
    {
        let home = self.host.home_dir();
        let roots = temp_roots(home.as_str());
        let entries = self.walk_all(&roots, 2);
        let r = temp_items(entries.as_slice(), MAX_TEMP_FILES);
        assert(item_views(r@) == items_where(
            first_n(entries@.filter(file_entry()), MAX_TEMP_FILES as int),
            content_entry(),
        ));
        r
    }

    /// One item per listed dangling image whose inspected size is not zero, in
    /// listing order, or the sentinel where there is none.
    fn scan_docker_images(&self) -> (r: Vec<CleanableItem>)
        ensures
            is_image_scan(item_views(r@)),
    {
        let list_args = image_list_args();
        let listing = self.host.run_tool("docker", list_args.as_slice());
        let ids = listed(&listing);
        let mut sizes: Vec<u64> = Vec::new();
        let mut k: usize = 0;
        while k < ids.len()
            invariant
                k <= ids@.len(),
                sizes@.len() == k,
            decreases ids@.len() - k,
        {
            let id = ids[k].as_str();
            let inspect_args = image_size_args(id);
            let inspected = self.host.run_tool("docker", inspect_args.as_slice());
            sizes.push(image_size(&inspected));
            k += 1;
        }
        let r = or_sentinel(image_items(&ids, &sizes), "Nenhuma imagem Docker não utilizada encontrada");
        assert(item_views(r@) == with_sentinel(
            image_items_of(listed_names(listing), sizes@),
            image_sentinel(),
        ));
        r
    }

    /// One item per listed dangling volume, or the sentinel where there is none.
    fn scan_docker_volumes(&self) -> (r: Vec<CleanableItem>)
        ensures
            is_volume_scan(item_views(r@)),
    {
        let list_args = volume_list_args();
        let listing = self.host.run_tool("docker", list_args.as_slice());
        let r = or_sentinel(volume_items(&listing), "Nenhum volume Docker não utilizado encontrado");
        assert(item_views(r@) == with_sentinel(volume_items_of(listed_names(listing)), volume_sentinel()));
        r
    }

    /// The dependency folders of the project directories, four levels down and
    /// up to the cap, then the two package caches, each with its size; those of
    /// size zero left out; the sentinel where none is left.
    fn scan_dev_packages(&self) -> (r: Vec<CleanableItem>)
        ensures
            is_package_scan(item_views(r@)),
    {
        let home = self.host.home_dir();
        let bases = project_roots(home.as_str());
        let mut candidates: Vec<String> = Vec::new();
        let mut b: usize = 0;
        while b < bases.len()
            invariant
                b <= bases@.len(),
                are_package_dirs(views_of(candidates@)),
            decreases bases@.len() - b,
        {
            let entries = self.host.walk(bases[b].as_str(), 4);
            let mut dirs = package_dirs(entries.as_slice(), MAX_PACKAGE_DIRS - candidates.len());
            let ghost before = candidates@;
            let ghost added = dirs@;
            candidates.append(&mut dirs);
            proof {
                assert forall|i: int| 0 <= i < views_of(candidates@).len() implies file_name_of(
                    #[trigger] views_of(candidates@)[i],
                ) == "node_modules"@ by {
                    if i >= before.len() {
                        assert(candidates@[i] == added[i - before.len()]);
                    } else {
                        assert(candidates@[i] == before[i]);
                        assert(views_of(before)[i] == before[i]@);
                    }
                }
            }
            b += 1;
        }
        let ghost dirs_found = views_of(candidates@);
        let mut caches = cache_paths(home.as_str());
        candidates.append(&mut caches);
        assert(views_of(candidates@) =~= dirs_found + cache_paths_of(home@));
        let mut sizes: Vec<u64> = Vec::new();
        let mut k: usize = 0;
        while k < candidates.len()
            invariant
                k <= candidates@.len(),
                sizes@.len() == k,
            decreases candidates@.len() - k,
        {
            sizes.push(self.calculate_directory_size(candidates[k].as_str()));
            k += 1;
        }
        let r = or_sentinel(sized_items(&candidates, &sizes), "Nenhum pacote de desenvolvimento encontrado");
        assert(item_views(r@) == with_sentinel(
            sized_items_of(dirs_found + cache_paths_of(home@), sizes@),
            package_sentinel(),
        ));
        r
    }

    /// Total size of the files under a directory, ten levels down; 0 where the
    /// path is not a directory.
    fn calculate_directory_size(&self, path: &str) -> (r: u64) {
        if self.host.path_kind(path) == EntryKind::Directory {
            let entries = self.host.walk(path, 10);
            directory_size(entries.as_slice())
        } else {
            0
        }
    }

    /// What the strategy of one kind finds.
    pub fn found_for(&self, category_type: CategoryType) -> (r: Vec<CleanableItem>)
        ensures
            is_found_for(category_type, item_views(r@)),
    {
        match category_type {
            CategoryType::LogFiles => self.scan_log_files(),
            CategoryType::TemporaryFiles => self.scan_temp_files(),
            CategoryType::DockerImages => self.scan_docker_images(),
            CategoryType::DockerVolumes => self.scan_docker_volumes(),
            CategoryType::DevelopmentPackages => self.scan_dev_packages(),
        }
    }
}

/// What a full scan on the host gives: one category per kind, in registry
/// order, each holding the significant items its strategy found.
pub open spec fn is_host_scan(cats: Seq<CategoryModel>) -> bool {
    exists|found: Seq<Seq<ItemModel>>|
        found.len() == registry().len() && (forall|k: int|
            0 <= k < found.len() ==> is_found_for(registry()[k], #[trigger] found[k])) && cats
            == #[trigger] result_of(found)
}

impl<H: HostSystem> ScannerRepository for FileSystemScannerRepository<H> {
    fn scan_system(&self) -> (r: Result<ScanResult, ScanError>)
        ensures
            r matches Ok(result) && is_full_pass(result@) && is_host_scan(result@),
    {
        let found = vec![
            self.found_for(CategoryType::LogFiles),
            self.found_for(CategoryType::TemporaryFiles),
            self.found_for(CategoryType::DockerImages),
            self.found_for(CategoryType::DockerVolumes),
            self.found_for(CategoryType::DevelopmentPackages),
        ];
        let result = result_from(&found);
        proof {
            let f = found_views(found@);
            assert forall|k: int| 0 <= k < f.len() implies is_found_for(registry()[k], #[trigger] f[k]) by {
                assert(f[k] == item_views(found@[k]@));
            }
        }
        Ok(result)
    }

    fn scan_category(&self, category_type: CategoryType) -> (r: Result<Vec<CleanableItem>, ScanError>)
        ensures
            r matches Ok(items) && is_found_for(category_type, item_views(items@)),
    {
        Ok(self.found_for(category_type))
    }
}

} // verus!
