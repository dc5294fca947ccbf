//! Properties of rendering that relate several entries, calls or functions.
use vstd::prelude::*;
use vstd::seq_lib::lemma_flatten_concat;
use crate::scalar::{lemma_read_scalar, needs_quotes, read_scalar, scalar};
use crate::model::{check_result, Compose, ComposeError, Named, Service};
use crate::render::{
    blocks_lines, field_line, item_line, item_lines, key_line, optional_field, render_lines,
    render_result, renders_as, section, service_lines, Block, ListItem,
};

verus! {

/// Rendering is deterministic: two renderings of one document give the same
/// text, character for character, or the same error.
pub proof fn render_is_deterministic(
    d: Compose,
    first: Result<String, ComposeError>,
    second: Result<String, ComposeError>,
)
    requires
        renders_as(d, first),
        renders_as(d, second),
    ensures
        first is Ok <==> second is Ok,
        first is Ok ==> first->Ok_0@ == second->Ok_0@,
        first is Err ==> first->Err_0 == second->Err_0,
{
}

/// `part` stands in `lines` from line `pos` on.
pub open spec fn lines_at(lines: Seq<Seq<char>>, pos: int, part: Seq<Seq<char>>) -> bool {
    &&& 0 <= pos
    &&& pos + part.len() <= lines.len()
    &&& lines.subrange(pos, pos + part.len()) == part
}

/// The line at which the block of entry `i` starts among the blocks of all entries.
pub open spec fn block_start<T: Block>(items: Seq<T>, i: int) -> int {
    blocks_lines(items.subrange(0, i)).len() as int
}

proof fn lemma_block_split<T: Block>(items: Seq<T>, i: int)
    requires
        0 <= i < items.len(),
    ensures
        blocks_lines(items) == blocks_lines(items.subrange(0, i)) + items[i].block_lines()
            + blocks_lines(items.subrange(i + 1, items.len() as int)),
{
    let f = |t: T| t.block_lines();
    let pre = items.subrange(0, i).map_values(f);
    let post = items.subrange(i + 1, items.len() as int).map_values(f);
    let one = seq![items[i].block_lines()];
    assert(items.map_values(f) =~= pre + one + post);
    lemma_flatten_concat(pre + one, post);
    lemma_flatten_concat(pre, one);
    one.lemma_flatten_singleton();
}

/// Entries are rendered in their order: the block of each entry stands whole
/// among the blocks, and an earlier entry's block ends before a later one's starts.
pub proof fn blocks_keep_order<T: Block>(items: Seq<T>, i: int, j: int)
    requires
        0 <= i < j < items.len(),
    ensures
        lines_at(blocks_lines(items), block_start(items, i), items[i].block_lines()),
        lines_at(blocks_lines(items), block_start(items, j), items[j].block_lines()),
        block_start(items, i) + items[i].block_lines().len() <= block_start(items, j),
{
    lemma_block_split(items, i);
    lemma_block_split(items, j);
    let all = blocks_lines(items);
    let pi = blocks_lines(items.subrange(0, i));
    let pj = blocks_lines(items.subrange(0, j));
    assert(all.subrange(pi.len() as int, (pi.len() + items[i].block_lines().len()) as int)
        =~= items[i].block_lines());
    assert(all.subrange(pj.len() as int, (pj.len() + items[j].block_lines().len()) as int)
        =~= items[j].block_lines());
    let upto_j = items.subrange(0, j);
    lemma_block_split(upto_j, i);
    assert(upto_j.subrange(0, i) =~= items.subrange(0, i));
    assert(upto_j[i] == items[i]);
}

/// Services are rendered in the order given, each block whole.
pub proof fn services_keep_order(c: Compose, i: int, j: int)
    requires
        0 <= i < j < c.services@.len(),
    ensures
        lines_at(render_lines(c), 2 + block_start(c.services@, i), service_lines(c.services@[i])),
        lines_at(render_lines(c), 2 + block_start(c.services@, j), service_lines(c.services@[j])),
        block_start(c.services@, i) + service_lines(c.services@[i]).len() <= block_start(
            c.services@,
            j,
        ),
{
    blocks_keep_order(c.services@, i, j);
    let lines = render_lines(c);
    let head = seq![lines[0], lines[1]];
    let b = blocks_lines(c.services@);
    let rest = lines.subrange(2 + b.len() as int, lines.len() as int);
    assert(lines =~= head + b + rest);
    assert forall|p: int, part: Seq<Seq<char>>| #[trigger] lines_at(b, p, part) implies lines_at(
        lines,
        2 + p,
        part,
    ) by {
        assert(lines.subrange(2 + p, 2 + p + part.len()) =~= b.subrange(p, p + part.len()));
    }
}

/// Top-level volumes are rendered in the order given, each block whole.
pub proof fn volumes_keep_order(c: Compose, i: int, j: int)
    requires
        0 <= i < j < c.volumes@.len(),
    ensures
        ({
            let base: int = 3 + blocks_lines(c.services@).len() as int;
            let items = c.volumes@;
            &&& lines_at(render_lines(c), base + block_start(items, i), items[i].block_lines())
            &&& lines_at(render_lines(c), base + block_start(items, j), items[j].block_lines())
        }),
        block_start(c.volumes@, i) + c.volumes@[i].block_lines().len() <= block_start(
            c.volumes@,
            j,
        ),
{
    blocks_keep_order(c.volumes@, i, j);
    let lines = render_lines(c);
    let base: int = 3 + blocks_lines(c.services@).len() as int;
    let b = blocks_lines(c.volumes@);
    assert(lines.subrange(base, base + b.len() as int) =~= b);
    assert forall|p: int, part: Seq<Seq<char>>| #[trigger] lines_at(b, p, part) implies lines_at(
        lines,
        base + p,
        part,
    ) by {
        assert(lines.subrange(base + p, base + p + part.len()) =~= b.subrange(p, p + part.len()));
    }
}

/// Top-level networks are rendered in the order given, each block whole.
pub proof fn networks_keep_order(c: Compose, i: int, j: int)
    requires
        0 <= i < j < c.networks@.len(),
    ensures
        ({
            let base: int = 4 + blocks_lines(c.services@).len()
                + blocks_lines(c.volumes@).len() as int;
            let items = c.networks@;
            &&& lines_at(render_lines(c), base + block_start(items, i), items[i].block_lines())
            &&& lines_at(render_lines(c), base + block_start(items, j), items[j].block_lines())
        }),
        block_start(c.networks@, i) + c.networks@[i].block_lines().len() <= block_start(
            c.networks@,
            j,
        ),
{
    blocks_keep_order(c.networks@, i, j);
    let lines = render_lines(c);
    let base: int = 4 + blocks_lines(c.services@).len() + blocks_lines(c.volumes@).len() as int;
    let b = blocks_lines(c.networks@);
    assert(lines.subrange(base, base + b.len() as int) =~= b);
    assert forall|p: int, part: Seq<Seq<char>>| #[trigger] lines_at(b, p, part) implies lines_at(
        lines,
        base + p,
        part,
    ) by {
        assert(lines.subrange(base + p, base + p + part.len()) =~= b.subrange(p, p + part.len()));
    }
}

/// The items of a list are rendered one line each, in their order.
pub proof fn items_keep_order<T: ListItem>(items: Seq<T>, k: int)
    requires
        0 <= k < items.len(),
    ensures
        item_lines(items).len() == items.len(),
        item_lines(items)[k] == item_line(items[k]),
{
}

proof fn lemma_last_part_at(pre: Seq<Seq<char>>, x: Seq<Seq<char>>)
    ensures
        lines_at(pre + x, pre.len() as int, x),
{
    assert((pre + x).subrange(pre.len() as int, (pre.len() + x.len()) as int) =~= x);
}

proof fn lemma_part_stays(a: Seq<Seq<char>>, b: Seq<Seq<char>>, q: int, x: Seq<Seq<char>>)
    requires
        lines_at(a, q, x),
    ensures
        lines_at(a + b, q, x),
{
    assert((a + b).subrange(q, q + x.len()) =~= a.subrange(q, q + x.len()));
}

proof fn lemma_items_in_section<T: ListItem>(
    lines: Seq<Seq<char>>,
    q: int,
    h: Seq<char>,
    items: Seq<T>,
)
    requires
        lines_at(lines, q, section(h, items)),
    ensures
        exists|p: int| lines_at(lines, p, item_lines(items)),
{
    if items.len() == 0 {
        assert(lines.subrange(0, 0) =~= item_lines(items));
        assert(lines_at(lines, 0, item_lines(items)));
    } else {
        let sec = section(h, items);
        let rest = sec.subrange(1, sec.len() as int);
        assert(lines.subrange(q + 1, q + 1 + item_lines(items).len()) =~= rest);
        assert(sec.subrange(1, sec.len() as int) =~= item_lines(items));
        assert(lines_at(lines, q + 1, item_lines(items)));
    }
}

/// Each list of a service stands in the service's block as one run of lines,
/// in the list's order.
pub proof fn service_lists_keep_order(s: Service)
    ensures
        lines_at(service_lines(s), 4, item_lines(s.ports@)),
        exists|p: int| lines_at(service_lines(s), p, item_lines(s.volumes@)),
        exists|p: int| lines_at(service_lines(s), p, item_lines(s.depends_on@)),
        exists|p: int| lines_at(service_lines(s), p, item_lines(s.labels@)),
        exists|p: int| lines_at(service_lines(s), p, item_lines(s.environments@)),
        exists|p: int| lines_at(service_lines(s), p, item_lines(s.networks@)),
{
    let a0 = seq![
        key_line(s.container_name@),
        field_line("    image: "@, s.image@),
        field_line("    container_name: "@, s.container_name@),
        "    ports:"@,
    ];
    let ports = item_lines(s.ports@);
    let mounts = item_lines(s.volumes@);
    let d = section("    depends_on:"@, s.depends_on@);
    let r = optional_field("    restart: "@, s.restart.condition@);
    let c = optional_field("    command: "@, s.command.value@);
    let l = section("    labels:"@, s.labels@);
    let e = section("    environment:"@, s.environments@);
    let n = section("    networks:"@, s.networks@);
    let t1 = a0 + ports;
    let t2 = t1 + seq!["    volumes:"@];
    let t3 = t2 + mounts;
    let t4 = t3 + d;
    let t5 = t4 + r;
    let t6 = t5 + c;
    let t7 = t6 + l;
    let t8 = t7 + e;
    let t9 = t8 + n;
    assert(t9 == service_lines(s));
    // ports
    lemma_last_part_at(a0, ports);
    lemma_part_stays(t1, seq!["    volumes:"@], 4, ports);
    lemma_part_stays(t2, mounts, 4, ports);
    lemma_part_stays(t3, d, 4, ports);
    lemma_part_stays(t4, r, 4, ports);
    lemma_part_stays(t5, c, 4, ports);
    lemma_part_stays(t6, l, 4, ports);
    lemma_part_stays(t7, e, 4, ports);
    lemma_part_stays(t8, n, 4, ports);
    // mounts
    let q = t2.len() as int;
    lemma_last_part_at(t2, mounts);
    lemma_part_stays(t3, d, q, mounts);
    lemma_part_stays(t4, r, q, mounts);
    lemma_part_stays(t5, c, q, mounts);
    lemma_part_stays(t6, l, q, mounts);
    lemma_part_stays(t7, e, q, mounts);
    lemma_part_stays(t8, n, q, mounts);
    assert(lines_at(t9, q, mounts));
    // dependencies
    let q = t3.len() as int;
    lemma_last_part_at(t3, d);
    lemma_part_stays(t4, r, q, d);
    lemma_part_stays(t5, c, q, d);
    lemma_part_stays(t6, l, q, d);
    lemma_part_stays(t7, e, q, d);
    lemma_part_stays(t8, n, q, d);
    lemma_items_in_section(t9, q, "    depends_on:"@, s.depends_on@);
    // labels
    let q = t6.len() as int;
    lemma_last_part_at(t6, l);
    lemma_part_stays(t7, e, q, l);
    lemma_part_stays(t8, n, q, l);
    lemma_items_in_section(t9, q, "    labels:"@, s.labels@);
    // environment
    let q = t7.len() as int;
    lemma_last_part_at(t7, e);
    lemma_part_stays(t8, n, q, e);
    lemma_items_in_section(t9, q, "    environment:"@, s.environments@);
    // networks
    lemma_last_part_at(t8, n);
    lemma_items_in_section(t9, t8.len() as int, "    networks:"@, s.networks@);
}

/// A line that cannot be the `depends_on:` header: its third character is
/// not a blank, or its fifth is not a `d`.
pub open spec fn unlike_dependency_header(l: Seq<char>) -> bool {
    ||| l.len() > 2 && l[2] != ' '
    ||| l.len() > 4 && l[4] != 'd'
}

pub open spec fn all_unlike_dependency_header(lines: Seq<Seq<char>>) -> bool {
    forall|k: int| 0 <= k < lines.len() ==> unlike_dependency_header(#[trigger] lines[k])
}

proof fn lemma_unlike_concat(a: Seq<Seq<char>>, b: Seq<Seq<char>>)
    requires
        all_unlike_dependency_header(a),
        all_unlike_dependency_header(b),
    ensures
        all_unlike_dependency_header(a + b),
{
    assert forall|k: int| 0 <= k < (a + b).len() implies unlike_dependency_header(
        #[trigger] (a + b)[k],
    ) by {
        if k >= a.len() {
            assert((a + b)[k] == b[k - a.len()]);
        }
    }
}

proof fn lemma_scalar_starts_unblank(v: Seq<char>)
    ensures
        scalar(v).len() > 0,
        scalar(v)[0] != ' ',
{
}

proof fn lemma_field_unlike(prefix: Seq<char>, v: Seq<char>)
    requires
        prefix.len() > 4,
        prefix[4] != 'd',
    ensures
        unlike_dependency_header(field_line(prefix, v)),
{
    assert(field_line(prefix, v)[4] == prefix[4]);
}

proof fn lemma_items_unlike<T: ListItem>(items: Seq<T>)
    ensures
        all_unlike_dependency_header(item_lines(items)),
{
    reveal_strlit("      - ");
    assert forall|k: int| 0 <= k < item_lines(items).len() implies unlike_dependency_header(
        #[trigger] item_lines(items)[k],
    ) by {
        lemma_field_unlike("      - "@, items[k].item_text());
    }
}

proof fn lemma_section_unlike<T: ListItem>(h: Seq<char>, items: Seq<T>)
    requires
        h.len() > 4,
        h[4] != 'd',
    ensures
        all_unlike_dependency_header(section(h, items)),
{
    lemma_items_unlike(items);
    if items.len() > 0 {
        assert(unlike_dependency_header(h));
        lemma_unlike_concat(seq![h], item_lines(items));
    }
}

proof fn lemma_optional_unlike(prefix: Seq<char>, v: Seq<char>)
    requires
        prefix.len() > 4,
        prefix[4] != 'd',
    ensures
        all_unlike_dependency_header(optional_field(prefix, v)),
{
    lemma_field_unlike(prefix, v);
}

/// Sections without items are left out, but for `ports:` and `volumes:`: a
/// service with no dependencies has no `depends_on:` line at all, and one with
/// no ports has its `ports:` header directly followed by `volumes:`.
pub proof fn empty_sections(s: Service)
    ensures
        s.depends_on@.len() == 0 ==> forall|k: int|
            0 <= k < service_lines(s).len() ==> #[trigger] service_lines(s)[k] != "    depends_on:"@,
        s.ports@.len() == 0 ==> service_lines(s)[3] == "    ports:"@ && service_lines(s)[4]
            == "    volumes:"@,
{
    let lines = service_lines(s);
    if s.ports@.len() == 0 {
        assert(item_lines(s.ports@).len() == 0);
        assert(lines[4] == "    volumes:"@);
    }
    if s.depends_on@.len() == 0 {
        reveal_strlit("  ");
        reveal_strlit(":");
        reveal_strlit("    image: ");
        reveal_strlit("    container_name: ");
        reveal_strlit("    ports:");
        reveal_strlit("    volumes:");
        reveal_strlit("    restart: ");
        reveal_strlit("    command: ");
        reveal_strlit("    labels:");
        reveal_strlit("    environment:");
        reveal_strlit("    networks:");
        reveal_strlit("    depends_on:");
        let key = key_line(s.container_name@);
        lemma_scalar_starts_unblank(s.container_name@);
        assert(key[2] == scalar(s.container_name@)[0]);
        lemma_field_unlike("    image: "@, s.image@);
        lemma_field_unlike("    container_name: "@, s.container_name@);
        let a0 = seq![
            key,
            field_line("    image: "@, s.image@),
            field_line("    container_name: "@, s.container_name@),
            "    ports:"@,
        ];
        assert(unlike_dependency_header("    ports:"@));
        assert(all_unlike_dependency_header(a0));
        lemma_items_unlike(s.ports@);
        lemma_unlike_concat(a0, item_lines(s.ports@));
        let t = a0 + item_lines(s.ports@);
        assert(unlike_dependency_header("    volumes:"@));
        assert(all_unlike_dependency_header(seq!["    volumes:"@]));
        lemma_unlike_concat(t, seq!["    volumes:"@]);
        let t = t + seq!["    volumes:"@];
        lemma_items_unlike(s.volumes@);
        lemma_unlike_concat(t, item_lines(s.volumes@));
        let t = t + item_lines(s.volumes@);
        let d = section("    depends_on:"@, s.depends_on@);
        assert(d =~= seq![]);
        lemma_unlike_concat(t, d);
        let t = t + d;
        let r = optional_field("    restart: "@, s.restart.condition@);
        lemma_optional_unlike("    restart: "@, s.restart.condition@);
        lemma_unlike_concat(t, r);
        let t = t + r;
        let c = optional_field("    command: "@, s.command.value@);
        lemma_optional_unlike("    command: "@, s.command.value@);
        lemma_unlike_concat(t, c);
        let t = t + c;
        let l = section("    labels:"@, s.labels@);
        lemma_section_unlike("    labels:"@, s.labels@);
        lemma_unlike_concat(t, l);
        let t = t + l;
        let e = section("    environment:"@, s.environments@);
        lemma_section_unlike("    environment:"@, s.environments@);
        lemma_unlike_concat(t, e);
        let t = t + e;
        let n = section("    networks:"@, s.networks@);
        lemma_section_unlike("    networks:"@, s.networks@);
        lemma_unlike_concat(t, n);
        let t = t + n;
        assert(t == lines);
        assert(!unlike_dependency_header("    depends_on:"@));
    }
}

/// What follows the prefix of a field line reads back as the field's value,
/// and a value that needs no quotes stands there verbatim.
pub proof fn field_reads_back(prefix: Seq<char>, v: Seq<char>)
    ensures
        field_line(prefix, v).subrange(prefix.len() as int, field_line(prefix, v).len() as int)
            == scalar(v),
        read_scalar(scalar(v)) == v,
        !needs_quotes(v) ==> field_line(prefix, v) == prefix + v,
{
    assert(field_line(prefix, v).subrange(prefix.len() as int, field_line(prefix, v).len() as int)
        =~= scalar(v));
    lemma_read_scalar(v);
}

/// The version is written on the document's first line.
pub proof fn version_written(c: Compose)
    ensures
        render_lines(c)[0] == field_line("version: "@, c.version->0@),
{
}

/// Every scalar field of a service that is not empty is written on a line
/// of the service's block: its name (as key and as `container_name`), its
/// image, and its restart condition and command when they are given.
pub proof fn service_scalars_written(s: Service)
    ensures
        service_lines(s)[0] == key_line(s.container_name@),
        service_lines(s)[1] == field_line("    image: "@, s.image@),
        service_lines(s)[2] == field_line("    container_name: "@, s.container_name@),
        s.restart.condition@.len() > 0 ==> exists|k: int|
            0 <= k < service_lines(s).len() && #[trigger] service_lines(s)[k] == field_line(
                "    restart: "@,
                s.restart.condition@,
            ),
        s.command.value@.len() > 0 ==> exists|k: int|
            0 <= k < service_lines(s).len() && #[trigger] service_lines(s)[k] == field_line(
                "    command: "@,
                s.command.value@,
            ),
{
    let lines = service_lines(s);
    let a0 = seq![
        key_line(s.container_name@),
        field_line("    image: "@, s.image@),
        field_line("    container_name: "@, s.container_name@),
        "    ports:"@,
    ];
    let t = a0 + item_lines(s.ports@) + seq!["    volumes:"@] + item_lines(s.volumes@) + section(
        "    depends_on:"@,
        s.depends_on@,
    );
    let r = optional_field("    restart: "@, s.restart.condition@);
    let c = optional_field("    command: "@, s.command.value@);
    let rest = section("    labels:"@, s.labels@) + section("    environment:"@, s.environments@)
        + section("    networks:"@, s.networks@);
    assert(lines =~= t + r + c + rest);
    if s.restart.condition@.len() > 0 {
        assert(lines[t.len() as int] == field_line("    restart: "@, s.restart.condition@));
    }
    if s.command.value@.len() > 0 {
        assert(lines[(t.len() + r.len()) as int] == field_line("    command: "@, s.command.value@));
    }
}

/// A document in which two services share a name is refused with
/// `DuplicateName`, and no text is produced.
pub proof fn duplicate_service_names_rejected(c: Compose, i: int, j: int)
    requires
        0 <= i < c.services@.len(),
        0 <= j < c.services@.len(),
        i != j,
        c.services@[i].container_name@ == c.services@[j].container_name@,
    ensures
        check_result(c) == Err::<(), ComposeError>(ComposeError::DuplicateName),
        render_result(c) == Err::<Seq<char>, ComposeError>(ComposeError::DuplicateName),
{
    if i < j {
        assert(c.services@[i].name_view() == c.services@[j].name_view());
    } else {
        assert(c.services@[j].name_view() == c.services@[i].name_view());
    }
}

} // verus!
