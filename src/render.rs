//! The compose document: its lines as spec functions of the model, and the
//! writer that produces them.
use vstd::prelude::*;
use vstd::seq_lib::lemma_flatten_concat;
use vstd::string::StringExecFns;
use crate::model::{
    check_result, Command, Compose, ComposeError, Dependency, Environment, Label, Network, Policy,
    Port, Service, Volume,
};
use crate::scalar::{scalar, write_scalar};

verus! {

/// A sequence of lines as text: each line ends with a newline.
pub open spec fn text_of(lines: Seq<Seq<char>>) -> Seq<char> {
    lines.map_values(|l: Seq<char>| l + "\n"@).flatten()
}

pub broadcast proof fn lemma_text_of_concat(a: Seq<Seq<char>>, b: Seq<Seq<char>>)
    ensures
        #[trigger] text_of(a + b) == text_of(a) + text_of(b),
{
    let f = |l: Seq<char>| l + "\n"@;
    assert((a + b).map_values(f) =~= a.map_values(f) + b.map_values(f));
    lemma_flatten_concat(a.map_values(f), b.map_values(f));
}

pub proof fn lemma_text_of_one(l: Seq<char>)
    ensures
        text_of(seq![l]) == l + "\n"@,
{
    let f = |l: Seq<char>| l + "\n"@;
    let m = seq![l].map_values(f);
    assert(m =~= seq![l + "\n"@]);
    m.lemma_flatten_singleton();
}

pub proof fn lemma_text_of_empty()
    ensures
        text_of(seq![]) == Seq::<char>::empty(),
{
    let f = |l: Seq<char>| l + "\n"@;
    assert(Seq::<Seq<char>>::empty().map_values(f) =~= seq![]);
}

/// A line that writes `value` after `prefix`.
pub open spec fn field_line(prefix: Seq<char>, value: Seq<char>) -> Seq<char> {
    prefix + scalar(value)
}

/// The line that opens the block of a named entry.
pub open spec fn key_line(name: Seq<char>) -> Seq<char> {
    "  "@ + scalar(name) + ":"@
}

/// A field written only when its value is not empty.
pub open spec fn optional_field(prefix: Seq<char>, value: Seq<char>) -> Seq<Seq<char>> {
    if value.len() == 0 {
        seq![]
    } else {
        seq![field_line(prefix, value)]
    }
}

fn write_line(out: &mut String, line: &str)
    ensures
        final(out)@ == old(out)@ + text_of(seq![line@]),
{
    out.append(line);
    out.append("\n");
    proof {
        lemma_text_of_one(line@);
    }
    assert(out@ =~= old(out)@ + text_of(seq![line@]));
}

fn write_field(out: &mut String, prefix: &str, value: &str)
    ensures
        final(out)@ == old(out)@ + text_of(seq![field_line(prefix@, value@)]),
{
    out.append(prefix);
    write_scalar(out, value);
    out.append("\n");
    proof {
        lemma_text_of_one(field_line(prefix@, value@));
    }
    assert(out@ =~= old(out)@ + text_of(seq![field_line(prefix@, value@)]));
}

fn write_key(out: &mut String, name: &str)
    ensures
        final(out)@ == old(out)@ + text_of(seq![key_line(name@)]),
{
    out.append("  ");
    write_scalar(out, name);
    out.append(":\n");
    proof {
        lemma_text_of_one(key_line(name@));
        reveal_strlit(":\n");
        reveal_strlit(":");
        reveal_strlit("\n");
    }
    assert(out@ =~= old(out)@ + text_of(seq![key_line(name@)]));
}

fn write_optional_field(out: &mut String, prefix: &str, value: &str)
    ensures
        final(out)@ == old(out)@ + text_of(optional_field(prefix@, value@)),
{
    if value.is_empty() {
        proof {
            lemma_text_of_empty();
        }
        assert(out@ =~= old(out)@ + text_of(optional_field(prefix@, value@)));
    } else {
        write_field(out, prefix, value);
    }
}

/// An entry of a list inside a service, written as one list item.
pub trait ListItem {
    /// The item's text before quoting.
    spec fn item_text(&self) -> Seq<char>;

    fn joined(&self) -> (r: String)
        ensures
            r@ == self.item_text(),
    ;
}

impl ListItem for Port {
    open spec fn item_text(&self) -> Seq<char> {
        self.host@ + ":"@ + self.container@
    }

    fn joined(&self) -> (r: String) {
        let mut r = self.host.clone();
        r.append(":");
        r.append(self.container.as_str());
        r
    }
}

impl ListItem for Volume {
    open spec fn item_text(&self) -> Seq<char> {
        self.title@ + ":"@ + self.driver@
    }

    fn joined(&self) -> (r: String) {
        let mut r = self.title.clone();
        r.append(":");
        r.append(self.driver.as_str());
        r
    }
}

impl ListItem for Dependency {
    open spec fn item_text(&self) -> Seq<char> {
        self.service@
    }

    fn joined(&self) -> (r: String) {
        self.service.clone()
    }
}

impl ListItem for Label {
    open spec fn item_text(&self) -> Seq<char> {
        self.key@ + "="@ + self.value@
    }

    fn joined(&self) -> (r: String) {
        let mut r = self.key.clone();
        r.append("=");
        r.append(self.value.as_str());
        r
    }
}

impl ListItem for Environment {
    open spec fn item_text(&self) -> Seq<char> {
        self.title@ + "="@ + self.value@
    }

    fn joined(&self) -> (r: String) {
        let mut r = self.title.clone();
        r.append("=");
        r.append(self.value.as_str());
        r
    }
}

impl ListItem for Network {
    open spec fn item_text(&self) -> Seq<char> {
        self.driver@
    }

    fn joined(&self) -> (r: String) {
        self.driver.clone()
    }
}

pub open spec fn item_line<T: ListItem>(t: T) -> Seq<char> {
    field_line("      - "@, t.item_text())
}

/// One line per item, in the items' order.
pub open spec fn item_lines<T: ListItem>(items: Seq<T>) -> Seq<Seq<char>> {
    items.map_values(|t: T| item_line(t))
}

/// A header with the items beneath it, or nothing at all when there are no items.
pub open spec fn section<T: ListItem>(header: Seq<char>, items: Seq<T>) -> Seq<Seq<char>> {
    if items.len() == 0 {
        seq![]
    } else {
        seq![header] + item_lines(items)
    }
}

fn write_items<T: ListItem>(out: &mut String, items: &Vec<T>)
    ensures
        final(out)@ == old(out)@ + text_of(item_lines(items@)),
{
    broadcast use lemma_text_of_concat;

    let ghost start = out@;
    let n = items.len();
    let mut i: usize = 0;
    proof {
        lemma_text_of_empty();
        assert(item_lines(items@.subrange(0, 0)) =~= seq![]);
    }
    assert(out@ =~= start + text_of(item_lines(items@.subrange(0, 0))));
    while i < n
        invariant
            n == items@.len(),
            i <= n,
            out@ == start + text_of(item_lines(items@.subrange(0, i as int))),
        decreases n - i,
    {
        let text = items[i].joined();
        write_field(out, "      - ", text.as_str());
        assert(item_lines(items@.subrange(0, i + 1)) =~= item_lines(items@.subrange(0, i as int))
            + seq![item_line(items@[i as int])]);
        proof {
            let prev = item_lines(items@.subrange(0, i as int));
            lemma_text_of_concat(prev, seq![item_line(items@[i as int])]);
            assert(start + text_of(prev) + text_of(seq![item_line(items@[i as int])]) =~= start + (
            text_of(prev) + text_of(seq![item_line(items@[i as int])])));
        }
        assert(out@ =~= start + text_of(item_lines(items@.subrange(0, i + 1))));
        i += 1;
    }
    assert(items@.subrange(0, n as int) =~= items@);
}

fn write_section<T: ListItem>(out: &mut String, header: &str, items: &Vec<T>)
    ensures
        final(out)@ == old(out)@ + text_of(section(header@, items@)),
{
    broadcast use lemma_text_of_concat;

    if items.len() == 0 {
        proof {
            lemma_text_of_empty();
        }
        assert(out@ =~= old(out)@ + text_of(section(header@, items@)));
    } else {
        write_line(out, header);
        write_items(out, items);
        assert(out@ =~= old(out)@ + text_of(section(header@, items@)));
    }
}

/// The lines of one service's block, in this order: its key, `image`,
/// `container_name`, `ports:` and `volumes:` with their items (both headers
/// always), then `depends_on`, `restart`, `command`, `labels`, `environment`
/// and `networks`, each only when it has something to show.
pub open spec fn service_lines(s: Service) -> Seq<Seq<char>> {
    seq![
        key_line(s.container_name@),
        field_line("    image: "@, s.image@),
        field_line("    container_name: "@, s.container_name@),
        "    ports:"@,
    ] + item_lines(s.ports@) + seq!["    volumes:"@] + item_lines(s.volumes@) + section(
        "    depends_on:"@,
        s.depends_on@,
    ) + optional_field("    restart: "@, s.restart.condition@) + optional_field(
        "    command: "@,
        s.command.value@,
    ) + section("    labels:"@, s.labels@) + section("    environment:"@, s.environments@)
        + section("    networks:"@, s.networks@)
}

/// The lines of a named volume at the top level.
pub open spec fn volume_lines(v: Volume) -> Seq<Seq<char>> {
    seq![key_line(v.title@), field_line("    driver: "@, v.driver@)]
}

pub open spec fn external_line(external: bool) -> Seq<char> {
    if external {
        "    external: true"@
    } else {
        "    external: false"@
    }
}

/// The lines of a named network at the top level.
pub open spec fn network_lines(n: Network) -> Seq<Seq<char>> {
    seq![key_line(n.driver@), external_line(n.external)]
}

/// An entry rendered as a block of lines of its own.
pub trait Block {
    spec fn block_lines(&self) -> Seq<Seq<char>>;

    fn write_block(&self, out: &mut String)
        ensures
            final(out)@ == old(out)@ + text_of(self.block_lines()),
    ;
}

proof fn lemma_append_lines(start: Seq<char>, done: Seq<Seq<char>>, more: Seq<Seq<char>>) -> (all:
    Seq<Seq<char>>)
    ensures
        all == done + more,
        start + text_of(done) + text_of(more) == start + text_of(all),
{
    lemma_text_of_concat(done, more);
    assert(start + text_of(done) + text_of(more) =~= start + (text_of(done) + text_of(more)));
    done + more
}

impl Block for Service {
    open spec fn block_lines(&self) -> Seq<Seq<char>> {
        service_lines(*self)
    }

    fn write_block(&self, out: &mut String) {
        let ghost start = out@;
        let ghost mut done = Seq::<Seq<char>>::empty();
        proof {
            lemma_text_of_empty();
            assert(out@ =~= start + text_of(done));
        }
        write_key(out, self.container_name.as_str());
        proof {
            done = lemma_append_lines(start, done, seq![key_line(self.container_name@)]);
        }
        write_field(out, "    image: ", self.image.as_str());
        proof {
            done = lemma_append_lines(start, done, seq![field_line("    image: "@, self.image@)]);
        }
        write_field(out, "    container_name: ", self.container_name.as_str());
        proof {
            let line = field_line("    container_name: "@, self.container_name@);
            done = lemma_append_lines(start, done, seq![line]);
        }
        write_line(out, "    ports:");
        proof {
            done = lemma_append_lines(start, done, seq!["    ports:"@]);
        }
        write_items(out, &self.ports);
        proof {
            done = lemma_append_lines(start, done, item_lines(self.ports@));
        }
        write_line(out, "    volumes:");
        proof {
            done = lemma_append_lines(start, done, seq!["    volumes:"@]);
        }
        write_items(out, &self.volumes);
        proof {
            done = lemma_append_lines(start, done, item_lines(self.volumes@));
        }
        write_section(out, "    depends_on:", &self.depends_on);
        proof {
            done = lemma_append_lines(start, done, section("    depends_on:"@, self.depends_on@));
        }
        write_optional_field(out, "    restart: ", self.restart.condition.as_str());
        proof {
            let part = optional_field("    restart: "@, self.restart.condition@);
            done = lemma_append_lines(start, done, part);
        }
        write_optional_field(out, "    command: ", self.command.value.as_str());
        proof {
            let part = optional_field("    command: "@, self.command.value@);
            done = lemma_append_lines(start, done, part);
        }
        write_section(out, "    labels:", &self.labels);
        proof {
            done = lemma_append_lines(start, done, section("    labels:"@, self.labels@));
        }
        write_section(out, "    environment:", &self.environments);
        proof {
            let part = section("    environment:"@, self.environments@);
            done = lemma_append_lines(start, done, part);
        }
        write_section(out, "    networks:", &self.networks);
        proof {
            done = lemma_append_lines(start, done, section("    networks:"@, self.networks@));
            assert(done =~= service_lines(*self));
        }
    }
}

impl Block for Volume {
    open spec fn block_lines(&self) -> Seq<Seq<char>> {
        volume_lines(*self)
    }

    fn write_block(&self, out: &mut String) {
        let ghost start = out@;
        write_key(out, self.title.as_str());
        write_field(out, "    driver: ", self.driver.as_str());
        proof {
            let key = seq![key_line(self.title@)];
            let driver = seq![field_line("    driver: "@, self.driver@)];
            let all = lemma_append_lines(start, key, driver);
            assert(all =~= volume_lines(*self));
        }
    }
}

impl Block for Network {
    open spec fn block_lines(&self) -> Seq<Seq<char>> {
        network_lines(*self)
    }

    fn write_block(&self, out: &mut String) {
        let ghost start = out@;
        write_key(out, self.driver.as_str());
        if self.external {
            write_line(out, "    external: true");
        } else {
            write_line(out, "    external: false");
        }
        proof {
            let key = seq![key_line(self.driver@)];
            let all = lemma_append_lines(start, key, seq![external_line(self.external)]);
            assert(all =~= network_lines(*self));
        }
    }
}

/// The blocks of all entries, one after the other in the entries' order.
pub open spec fn blocks_lines<T: Block>(items: Seq<T>) -> Seq<Seq<char>> {
    items.map_values(|t: T| t.block_lines()).flatten()
}

fn write_blocks<T: Block>(out: &mut String, items: &Vec<T>)
    ensures
        final(out)@ == old(out)@ + text_of(blocks_lines(items@)),
{
    let ghost start = out@;
    let n = items.len();
    let mut i: usize = 0;
    proof {
        lemma_text_of_empty();
        assert(items@.subrange(0, 0).map_values(|t: T| t.block_lines()) =~= seq![]);
    }
    assert(out@ =~= start + text_of(blocks_lines(items@.subrange(0, 0))));
    while i < n
        invariant
            n == items@.len(),
            i <= n,
            out@ == start + text_of(blocks_lines(items@.subrange(0, i as int))),
        decreases n - i,
    {
        items[i].write_block(out);
        proof {
            let f = |t: T| t.block_lines();
            let prev = items@.subrange(0, i as int).map_values(f);
            let block = items@[i as int].block_lines();
            assert(items@.subrange(0, i + 1).map_values(f) =~= prev.push(block));
            prev.lemma_flatten_push(block);
            lemma_append_lines(start, prev.flatten(), block);
        }
        i += 1;
    }
    assert(items@.subrange(0, n as int) =~= items@);
}

/// The lines of a document: its version, then the services, the volumes and
/// the networks, each under its header and in the order given.
pub open spec fn render_lines(c: Compose) -> Seq<Seq<char>> {
    seq![field_line("version: "@, c.version->0@), "services:"@] + blocks_lines(c.services@) + seq![
        "volumes:"@,
    ] + blocks_lines(c.volumes@) + seq!["networks:"@] + blocks_lines(c.networks@)
}

/// The text of a document.
pub open spec fn render_text(c: Compose) -> Seq<char> {
    text_of(render_lines(c))
}

/// What rendering a document gives: the error of `check_result`, or the text.
pub open spec fn render_result(c: Compose) -> Result<Seq<char>, ComposeError> {
    match check_result(c) {
        Err(e) => Err(e),
        Ok(_) => Ok(render_text(c)),
    }
}

/// `r` is what rendering `c` gives: the text of `render_result`, or its error.
pub open spec fn renders_as(c: Compose, r: Result<String, ComposeError>) -> bool {
    match r {
        Ok(s) => render_result(c) == Ok::<Seq<char>, ComposeError>(s@),
        Err(e) => render_result(c) == Err::<Seq<char>, ComposeError>(e),
    }
}

/// Renders a document as a compose file, or says why it cannot be.
///
/// `environments` and `extensions` of the document are not written. A
/// dependency or network that names nothing in the document is written as it
/// is. Values that would change the file's structure are double-quoted.
pub fn parse_compose(compose: Compose) -> (r: Result<String, ComposeError>)
    ensures
        renders_as(compose, r),
        r matches Ok(s) ==> render_result(compose) == Ok::<Seq<char>, ComposeError>(s@),
        r matches Err(e) ==> render_result(compose) == Err::<Seq<char>, ComposeError>(e),
{
    match compose.validate() {
        Err(e) => {
            return Err(e);
        },
        Ok(()) => {},
    }
    let version = match &compose.version {
        Some(v) => v,
        None => {
            return Err(ComposeError::MissingRequiredField);
        },
    };
    let mut out = String::new();
    let ghost mut done = Seq::<Seq<char>>::empty();
    proof {
        lemma_text_of_empty();
        assert(out@ =~= text_of(done));
    }
    write_field(&mut out, "version: ", version.as_str());
    proof {
        done = lemma_append_lines(seq![], done, seq![field_line("version: "@, version@)]);
    }
    write_line(&mut out, "services:");
    proof {
        done = lemma_append_lines(seq![], done, seq!["services:"@]);
    }
    write_blocks(&mut out, &compose.services);
    proof {
        done = lemma_append_lines(seq![], done, blocks_lines(compose.services@));
    }
    write_line(&mut out, "volumes:");
    proof {
        done = lemma_append_lines(seq![], done, seq!["volumes:"@]);
    }
    write_blocks(&mut out, &compose.volumes);
    proof {
        done = lemma_append_lines(seq![], done, blocks_lines(compose.volumes@));
    }
    write_line(&mut out, "networks:");
    proof {
        done = lemma_append_lines(seq![], done, seq!["networks:"@]);
    }
    write_blocks(&mut out, &compose.networks);
    proof {
        done = lemma_append_lines(seq![], done, blocks_lines(compose.networks@));
        assert(done =~= render_lines(compose));
    }
    Ok(out)
}

} // verus!
