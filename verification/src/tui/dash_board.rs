//! The metrics dashboard: one block of text for each monitored entity,
//! with its latest readings and a bar for each of its two network
//! histories, and the blocks set side by side. A block is a rectangle of
//! text, and so is the dashboard.
//!
//! Readings are fixed-point numbers in the precision in which they are
//! shown: the processor load in tenths of a percent, memory in hundredths
//! of a gigabyte, network speeds in hundredths of a megabit per second.

use vstd::prelude::*;
use crate::tui::bar_chart::{bar_chart, draw_bar_chart, local_max, local_maximum};
use crate::tui::histories::Histories;
use crate::tui::history::newest;
use crate::tui::text::{
    centered, column_width, decimal, fill_lines, filled, fixed_point, lemma_filled_is_rectangular,
    lines, push_centered, push_decimal, push_fixed_point, push_repeated, push_right_aligned,
    repeated, right_aligned,
};

verus! {

/// The width of a block, and of the blank line that stands in for a
/// missing line of a block.
pub const BLOCK_WIDTH: usize = 30;

/// The number of lines that a block has at least.
pub const BLOCK_HEIGHT: usize = 8;

/// The number of blanks between two blocks.
pub const GAP: usize = 17;

/// The width to which a reading is moved right.
pub const READING_WIDTH: usize = 6;

/// One batch of readings, one entry for each entity in display order.
#[derive(Clone, Debug)]
pub struct Metrics {
    pub server_data: Vec<Payload>,
}

/// The readings of one entity as they arrive: `netspeed` holds the upload
/// speed and then the download speed.
#[derive(Clone, Debug)]
pub struct Payload {
    pub cpu: i64,
    pub ram: i64,
    pub netspeed: Vec<i64>,
}

/// What is shown of one entity: its latest readings and the histories of
/// its upload and its download speed, oldest first.
#[derive(Debug)]
pub struct Metric {
    pub cpu: i64,
    pub ram: i64,
    pub netspeed: (i64, i64),
    pub net_history: (Vec<i64>, Vec<i64>),
}

impl Clone for Metric {
    fn clone(&self) -> (copy: Self)
        ensures
            copy@ == self@,
    {
        Metric {
            cpu: self.cpu,
            ram: self.ram,
            netspeed: (self.netspeed.0, self.netspeed.1),
            net_history: (self.net_history.0.clone(), self.net_history.1.clone()),
        }
    }
}

/// The values of a `Metric`.
pub struct MetricView {
    pub cpu: int,
    pub ram: int,
    pub upload: int,
    pub download: int,
    pub upload_history: Seq<i64>,
    pub download_history: Seq<i64>,
}

impl View for Metric {
    type V = MetricView;

    open spec fn view(&self) -> MetricView {
        MetricView {
            cpu: self.cpu as int,
            ram: self.ram as int,
            upload: self.netspeed.0 as int,
            download: self.netspeed.1 as int,
            upload_history: self.net_history.0@,
            download_history: self.net_history.1@,
        }
    }
}

/// The line of a reading: its name, the value with `decimals` digits
/// after the point, moved right, and its unit.
pub open spec fn reading_line(name: Seq<char>, value: int, decimals: nat, unit: Seq<char>) -> Seq<
    char,
> {
    name + right_aligned(fixed_point(value, decimals), READING_WIDTH as nat) + unit
}

/// The line of a network speed: the reading and the bar of its history
/// on the history's own scale.
pub open spec fn speed_line(name: Seq<char>, value: int, history: Seq<i64>) -> Seq<char> {
    reading_line(name, value, 2, " Mbps   "@) + bar_chart(history, local_max(history))
}

/// What the lines of the block of one entity say: the title in the
/// middle of the least width of a block, a rule, the readings of processor
/// and memory, and the two network speeds with their bars; then an empty
/// line, which fills the block to its height.
pub open spec fn block_content(m: MetricView, title: Seq<char>) -> Seq<Seq<char>> {
    seq![
        centered(title, BLOCK_WIDTH as nat),
        repeated('-', BLOCK_WIDTH as nat),
        reading_line("CPU:     "@, m.cpu, 1, " %"@),
        reading_line("RAM:     "@, m.ram, 2, " GB"@),
        "NetSpeed:"@,
        speed_line("  Upload:   "@, m.upload, m.upload_history),
        speed_line("  Download: "@, m.download, m.download_history),
        Seq::<char>::empty(),
    ]
}

/// The width of the block of one entity: that of its longest line, but no
/// less than `BLOCK_WIDTH`.
pub open spec fn block_width(m: MetricView, title: Seq<char>) -> nat {
    column_width(block_content(m, title), BLOCK_WIDTH as nat)
}

/// The block of one entity: a rectangle of text. Every line is filled
/// with blanks at its right to the width of the block.
pub open spec fn metric_block(m: MetricView, title: Seq<char>) -> Seq<Seq<char>> {
    filled(block_content(m, title), block_width(m, title))
}

/// The block of an entity has `BLOCK_HEIGHT` lines, and every one of them
/// is as long as the block is wide.
pub proof fn lemma_block_is_rectangular(m: MetricView, title: Seq<char>)
    ensures
        metric_block(m, title).len() == BLOCK_HEIGHT,
        block_width(m, title) >= BLOCK_WIDTH,
        forall|i: int|
            0 <= i < BLOCK_HEIGHT ==> (#[trigger] metric_block(m, title)[i]).len() == block_width(
                m,
                title,
            ),
{
    lemma_filled_is_rectangular(block_content(m, title), BLOCK_WIDTH as nat);
}

/// Adds the line of a reading to the end of `s`.
fn push_reading(s: &mut String, name: &str, value: i64, decimals: u8, unit: &str)
    ensures
        final(s)@ == old(s)@ + reading_line(name@, value as int, decimals as nat, unit@),
{
    s.append(name);
    let mut reading = String::new();
    push_fixed_point(&mut reading, value, decimals);
    push_right_aligned(s, reading.as_str(), READING_WIDTH);
    s.append(unit);
    assert(s@ =~= old(s)@ + reading_line(name@, value as int, decimals as nat, unit@));
}

/// The line of a network speed.
fn speed_text(name: &str, value: i64, history: &Vec<i64>) -> (line: String)
    ensures
        line@ == speed_line(name@, value as int, history@),
{
    let max_val: i64 = local_maximum(history);
    let mut line = String::new();
    push_reading(&mut line, name, value, 2, " Mbps   ");
    let chart: String = draw_bar_chart(history.as_slice(), max_val);
    line.append(chart.as_str());
    line
}

/// Lays out the block of one entity under `title`: `BLOCK_HEIGHT` lines
/// of one length, each filled with blanks at its right to the width of the
/// block.
pub fn format_metrics(metrics: &Metric, title: &str) -> (block: Vec<String>)
    ensures
        lines(block) == metric_block(metrics@, title@),
        block@.len() == BLOCK_HEIGHT,
        forall|i: int|
            0 <= i < BLOCK_HEIGHT ==> (#[trigger] block@[i])@.len() == block_width(
                metrics@,
                title@,
            ),
{
    let mut content: Vec<String> = Vec::new();
    let mut heading = String::new();
    push_centered(&mut heading, title, BLOCK_WIDTH);
    content.push(heading);
    let mut rule = String::new();
    push_repeated(&mut rule, '-', BLOCK_WIDTH);
    content.push(rule);
    let mut cpu = String::new();
    push_reading(&mut cpu, "CPU:     ", metrics.cpu, 1, " %");
    content.push(cpu);
    let mut ram = String::new();
    push_reading(&mut ram, "RAM:     ", metrics.ram, 2, " GB");
    content.push(ram);
    content.push(String::from_str("NetSpeed:"));
    content.push(speed_text("  Upload:   ", metrics.netspeed.0, &metrics.net_history.0));
    content.push(speed_text("  Download: ", metrics.netspeed.1, &metrics.net_history.1));
    while content.len() < BLOCK_HEIGHT
        invariant
            7 <= content@.len() <= BLOCK_HEIGHT,
            lines(content) == block_content(metrics@, title@).subrange(0, content@.len() as int),
        decreases BLOCK_HEIGHT - content@.len(),
    {
        content.push(String::new());
        assert(lines(content) =~~= block_content(metrics@, title@).subrange(
            0,
            content@.len() as int,
        ));
    }
    assert(lines(content) =~~= block_content(metrics@, title@));
    fill_lines(&content, BLOCK_WIDTH)
}

/// The blocks of the columns, each as its lines.
pub open spec fn blocks(columns: Vec<Vec<String>>) -> Seq<Seq<Seq<char>>> {
    Seq::new(columns@.len(), |i: int| lines(columns@[i]))
}

/// The height of the tallest block; 0 where there is none.
pub open spec fn tallest(blocks: Seq<Seq<Seq<char>>>) -> nat
    decreases blocks.len(),
{
    if blocks.len() == 0 {
        0
    } else {
        let rest = tallest(blocks.drop_last());
        if rest >= blocks.last().len() {
            rest
        } else {
            blocks.last().len()
        }
    }
}

/// What a block shows in `row`: its line there, or a blank line of the
/// block's width where the block is shorter.
pub open spec fn column_line(block: Seq<Seq<char>>, row: int) -> Seq<char> {
    if 0 <= row < block.len() {
        block[row]
    } else {
        repeated(' ', BLOCK_WIDTH as nat)
    }
}

/// Row `row` of the blocks set side by side, with the gap between each
/// two of them.
pub open spec fn merged_row(blocks: Seq<Seq<Seq<char>>>, row: int) -> Seq<char>
    decreases blocks.len(),
{
    if blocks.len() == 0 {
        Seq::<char>::empty()
    } else if blocks.len() == 1 {
        column_line(blocks[0], row)
    } else {
        merged_row(blocks.drop_last(), row) + repeated(' ', GAP as nat) + column_line(
            blocks.last(),
            row,
        )
    }
}

/// The blocks set side by side: as many rows as the tallest block has.
pub open spec fn merged(blocks: Seq<Seq<Seq<char>>>) -> Seq<Seq<char>> {
    Seq::new(tallest(blocks), |row: int| merged_row(blocks, row))
}

/// The frame of blocks set side by side is as high as the tallest of
/// them: no block is higher, one is as high, and without blocks the frame
/// is empty.
pub proof fn lemma_merged_height(blocks: Seq<Seq<Seq<char>>>)
    ensures
        merged(blocks).len() == tallest(blocks),
        forall|i: int| 0 <= i < blocks.len() ==> (#[trigger] blocks[i]).len() <= tallest(blocks),
        blocks.len() > 0 ==> exists|i: int|
            0 <= i < blocks.len() && (#[trigger] blocks[i]).len() == tallest(blocks),
        blocks.len() == 0 ==> merged(blocks) == Seq::<Seq<char>>::empty(),
    decreases blocks.len(),
{
    if blocks.len() == 0 {
        assert(merged(blocks) =~= Seq::<Seq<char>>::empty());
    } else {
        let rest = blocks.drop_last();
        lemma_merged_height(rest);
        let last = blocks.len() - 1;
        assert forall|i: int| 0 <= i < blocks.len() implies (#[trigger] blocks[i]).len() <= tallest(
            blocks,
        ) by {
            if i < last {
                assert(blocks[i] == rest[i]);
            }
        }
        if tallest(rest) >= blocks.last().len() && rest.len() > 0 {
            let i = choose|i: int| 0 <= i < rest.len() && (#[trigger] rest[i]).len() == tallest(rest);
            assert(blocks[i] == rest[i]);
        } else {
            assert(blocks[last].len() == tallest(blocks));
        }
    }
}

/// Whether the block shows lines of one length in the rows above row
/// `height`, the blank lines below its last line counted in.
pub open spec fn aligned(block: Seq<Seq<char>>, height: int) -> bool {
    forall|r: int|
        0 <= r < height ==> (#[trigger] column_line(block, r)).len() == column_line(block, 0).len()
}

/// Blocks that each show lines of one length give rows of one length
/// when they are set side by side.
pub proof fn lemma_merged_rows_align(blocks: Seq<Seq<Seq<char>>>, height: int, row: int)
    requires
        forall|k: int| 0 <= k < blocks.len() ==> aligned(#[trigger] blocks[k], height),
        0 <= row < height,
    ensures
        merged_row(blocks, row).len() == merged_row(blocks, 0).len(),
    decreases blocks.len(),
{
    if blocks.len() > 0 {
        let last = blocks.len() - 1;
        assert(aligned(blocks[last], height));
        assert(column_line(blocks[last], row).len() == column_line(blocks[last], 0).len());
        if blocks.len() > 1 {
            let rest = blocks.drop_last();
            assert forall|k: int| 0 <= k < rest.len() implies aligned(#[trigger] rest[k], height) by {
                assert(rest[k] == blocks[k]);
            }
            lemma_merged_rows_align(rest, height, row);
        }
    }
}

/// The height of the tallest column.
fn tallest_column(columns: &Vec<Vec<String>>) -> (height: usize)
    ensures
        height == tallest(blocks(*columns)),
{
    let ghost all = blocks(*columns);
    let mut height: usize = 0;
    let mut c: usize = 0;
    while c < columns.len()
        invariant
            c <= columns@.len(),
            all == blocks(*columns),
            height == tallest(all.subrange(0, c as int)),
        decreases columns@.len() - c,
    {
        assert(all.subrange(0, c + 1).drop_last() =~= all.subrange(0, c as int));
        if columns[c].len() > height {
            height = columns[c].len();
        }
        c += 1;
    }
    assert(all.subrange(0, c as int) =~= all);
    height
}

/// Row `row` of the columns set side by side.
fn merge_row(columns: &Vec<Vec<String>>, row: usize) -> (line: String)
    ensures
        line@ == merged_row(blocks(*columns), row as int),
{
    let ghost all = blocks(*columns);
    let mut line = String::new();
    let mut c: usize = 0;
    while c < columns.len()
        invariant
            c <= columns@.len(),
            all == blocks(*columns),
            line@ == merged_row(all.subrange(0, c as int), row as int),
        decreases columns@.len() - c,
    {
        let ghost before = line@;
        assert(all.subrange(0, c + 1).drop_last() =~= all.subrange(0, c as int));
        if c > 0 {
            push_repeated(&mut line, ' ', GAP);
        }
        if row < columns[c].len() {
            line.append(columns[c][row].as_str());
        } else {
            push_repeated(&mut line, ' ', BLOCK_WIDTH);
        }
        assert(all.subrange(0, c + 1).last() == all[c as int]);
        assert(line@ =~= merged_row(all.subrange(0, c + 1), row as int));
        c += 1;
    }
    assert(all.subrange(0, c as int) =~= all);
    line
}

/// Sets the blocks side by side, the first at the left. The frame has as
/// many rows as the tallest block; a block that is shorter shows blank
/// lines of the block width below its last line, and a gap of blanks
/// parts each two blocks. Without blocks the frame is empty. Where every
/// block shows lines of one length, so does the frame.
pub fn merge_columns(columns: Vec<Vec<String>>) -> (frame: Vec<String>)
    ensures
        lines(frame) == merged(blocks(columns)),
        frame@.len() == tallest(blocks(columns)),
        columns@.len() == 0 ==> frame@.len() == 0,
        (forall|k: int|
            0 <= k < columns@.len() ==> aligned(
                #[trigger] blocks(columns)[k],
                tallest(blocks(columns)) as int,
            )) ==> forall|r: int|
            0 <= r < frame@.len() ==> (#[trigger] frame@[r])@.len() == frame@[0]@.len(),
{
    let height: usize = tallest_column(&columns);
    let mut frame: Vec<String> = Vec::new();
    let mut row: usize = 0;
    while row < height
        invariant
            row <= height,
            height == tallest(blocks(columns)),
            frame@.len() == row,
            forall|i: int| 0 <= i < row ==> (#[trigger] frame@[i])@ == merged_row(blocks(columns), i),
        decreases height - row,
    {
        frame.push(merge_row(&columns, row));
        row += 1;
    }
    assert(lines(frame) =~~= merged(blocks(columns)));
    proof {
        let all = blocks(columns);
        if forall|k: int| 0 <= k < all.len() ==> aligned(#[trigger] all[k], height as int) {
            assert forall|r: int| 0 <= r < frame@.len() implies (#[trigger] frame@[r])@.len()
                == frame@[0]@.len() by {
                lemma_merged_rows_align(all, height as int, r);
                lemma_merged_rows_align(all, height as int, 0);
                assert(lines(frame)[r] == frame@[r]@);
                assert(lines(frame)[0] == frame@[0]@);
            }
        }
    }
    frame
}

/// Why a batch of readings could not be shown.
#[derive(Clone, Copy, Debug, PartialEq, Eq, Structural)]
pub enum DashError {
    /// The readings of `entity` lack the upload or the download speed.
    MissingNetSpeed { entity: usize },
}

/// The title of the block of entity `i`: entities are counted from 1.
pub open spec fn system_title(i: int) -> Seq<char> {
    "System "@ + decimal((i + 1) as nat)
}

/// The values of the metrics, in their order.
pub open spec fn metric_views(metrics: Seq<Metric>) -> Seq<MetricView> {
    Seq::new(metrics.len(), |i: int| metrics[i]@)
}

/// The frame of the dashboard: the blocks of the entities side by side
/// in their order, each under its title.
pub open spec fn dashboard_frame(views: Seq<MetricView>) -> Seq<Seq<char>> {
    merged(Seq::new(views.len(), |i: int| metric_block(views[i], system_title(i))))
}

/// The dashboard is as high as one block where there is an entity, and
/// empty where there is none.
pub proof fn lemma_dashboard_height(views: Seq<MetricView>)
    ensures
        dashboard_frame(views).len() == if views.len() == 0 {
            0
        } else {
            BLOCK_HEIGHT as int
        },
{
    let all = Seq::new(views.len(), |i: int| metric_block(views[i], system_title(i)));
    lemma_merged_height(all);
    if views.len() > 0 {
        let i = choose|i: int| 0 <= i < all.len() && (#[trigger] all[i]).len() == tallest(all);
        assert(all[i].len() == BLOCK_HEIGHT);
    }
}

/// The dashboard is a rectangle of text: all its rows have one length.
pub proof fn lemma_dashboard_is_rectangular(views: Seq<MetricView>)
    ensures
        forall|r: int|
            0 <= r < dashboard_frame(views).len() ==> (#[trigger] dashboard_frame(views)[r]).len()
                == dashboard_frame(views)[0].len(),
{
    let all = Seq::new(views.len(), |i: int| metric_block(views[i], system_title(i)));
    lemma_dashboard_height(views);
    assert forall|k: int| 0 <= k < all.len() implies aligned(
        #[trigger] all[k],
        BLOCK_HEIGHT as int,
    ) by {
        lemma_block_is_rectangular(views[k], system_title(k));
    }
    assert forall|r: int| 0 <= r < dashboard_frame(views).len() implies (#[trigger] dashboard_frame(
        views,
    )[r]).len() == dashboard_frame(views)[0].len() by {
        lemma_merged_rows_align(all, BLOCK_HEIGHT as int, r);
    }
}

/// Renders the dashboard of the entities in `views`, the first at the
/// left. Nothing but `views` goes into the frame.
pub fn render_views(views: &Vec<Metric>) -> (frame: Vec<String>)
    ensures
        lines(frame) == dashboard_frame(metric_views(views@)),
        forall|r: int| 0 <= r < frame@.len() ==> (#[trigger] frame@[r])@.len() == frame@[0]@.len(),
{
    let mut columns: Vec<Vec<String>> = Vec::new();
    let mut i: usize = 0;
    while i < views.len()
        invariant
            i <= views@.len(),
            columns@.len() == i,
            forall|k: int|
                0 <= k < i ==> lines(#[trigger] columns@[k]) == metric_block(
                    views@[k]@,
                    system_title(k),
                ),
        decreases views@.len() - i,
    {
        let mut title = String::from_str("System ");
        push_decimal(&mut title, (i + 1) as u64);
        columns.push(format_metrics(&views[i], title.as_str()));
        i += 1;
    }
    assert(blocks(columns) =~= Seq::new(
        metric_views(views@).len(),
        |i: int| metric_block(metric_views(views@)[i], system_title(i)),
    ));
    let frame: Vec<String> = merge_columns(columns);
    proof {
        lemma_dashboard_is_rectangular(metric_views(views@));
        assert forall|r: int| 0 <= r < frame@.len() implies (#[trigger] frame@[r])@.len()
            == frame@[0]@.len() by {
            let wanted = dashboard_frame(metric_views(views@));
            assert(wanted[r].len() == wanted[0].len());
            assert(lines(frame)[r] == frame@[r]@);
            assert(lines(frame)[0] == frame@[0]@);
        }
    }
    frame
}

/// Rendering is repeatable: whenever `render_views` is given the same
/// values, it returns the same frame, character for character.
pub proof fn lemma_rendering_repeats(
    first: Vec<Metric>,
    second: Vec<Metric>,
    frame1: Vec<String>,
    frame2: Vec<String>,
)
    requires
        metric_views(first@) == metric_views(second@),
        call_ensures(render_views, (&first,), frame1),
        call_ensures(render_views, (&second,), frame2),
    ensures
        lines(frame1) == lines(frame2),
{
}

/// Whether the readings hold both network speeds.
pub open spec fn complete(p: Payload) -> bool {
    p.netspeed@.len() >= 2
}

/// What is shown of entity `i` of the batch `data` once `histories` has
/// taken the batch in.
pub open spec fn shown(data: Seq<Payload>, histories: Histories, i: int) -> MetricView {
    MetricView {
        cpu: data[i].cpu as int,
        ram: data[i].ram as int,
        upload: data[i].netspeed@[0] as int,
        download: data[i].netspeed@[1] as int,
        upload_history: histories.upload_of(i),
        download_history: histories.download_of(i),
    }
}

/// The first entity of the batch whose readings are not complete, if
/// there is one.
fn first_incomplete(data: &Vec<Payload>) -> (found: Option<usize>)
    ensures
        match found {
            Some(entity) => entity < data@.len() && !complete(data@[entity as int]) && forall|
                k: int,
            |
                0 <= k < entity ==> complete(#[trigger] data@[k]),
            None => forall|k: int| 0 <= k < data@.len() ==> complete(#[trigger] data@[k]),
        },
{
    let mut i: usize = 0;
    while i < data.len()
        invariant
            i <= data@.len(),
            forall|k: int| 0 <= k < i ==> complete(#[trigger] data@[k]),
        decreases data@.len() - i,
    {
        if data[i].netspeed.len() < 2 {
            return Some(i);
        }
        i += 1;
    }
    None
}

/// Takes in one batch of readings and renders the dashboard. Entity `i`
/// of the batch reports to the histories of entity `i`; then each entity
/// of the batch is shown with its readings and its histories, the first
/// at the left. A batch in which some entity lacks a network speed is
/// refused as a whole and leaves the histories as they were; the error
/// names the first such entity.
pub fn render_dash(payload: &Metrics, histories: &mut Histories) -> (r: Result<
    Vec<String>,
    DashError,
>)
    requires
        old(histories).wf(),
    ensures
        final(histories).wf(),
        final(histories).spec_capacity() == old(histories).spec_capacity(),
        match r {
            Err(DashError::MissingNetSpeed { entity }) => {
                &&& entity < payload.server_data@.len()
                &&& !complete(payload.server_data@[entity as int])
                &&& forall|k: int| 0 <= k < entity ==> complete(#[trigger] payload.server_data@[k])
                &&& *final(histories) == *old(histories)
            },
            Ok(frame) => {
                &&& forall|k: int|
                    0 <= k < payload.server_data@.len() ==> complete(
                        #[trigger] payload.server_data@[k],
                    )
                &&& final(histories).spec_len() == if old(histories).spec_len()
                    > payload.server_data@.len() {
                    old(histories).spec_len()
                } else {
                    payload.server_data@.len()
                }
                &&& forall|k: int|
                    0 <= k < payload.server_data@.len() ==> #[trigger] final(histories).upload_of(k)
                        == newest(
                        old(histories).upload_of(k).push(payload.server_data@[k].netspeed@[0]),
                        old(histories).spec_capacity(),
                    )
                &&& forall|k: int|
                    0 <= k < payload.server_data@.len() ==> #[trigger] final(histories).download_of(k) == newest(
                        old(histories).download_of(k).push(payload.server_data@[k].netspeed@[1]),
                        old(histories).spec_capacity(),
                    )
                &&& forall|k: int|
                    #![trigger final(histories).upload_of(k)]
                    #![trigger old(histories).upload_of(k)]
                    k < 0 || k >= payload.server_data@.len() ==> final(histories).upload_of(k)
                        == old(histories).upload_of(k)
                &&& forall|k: int|
                    #![trigger final(histories).download_of(k)]
                    #![trigger old(histories).download_of(k)]
                    k < 0 || k >= payload.server_data@.len() ==> final(histories).download_of(k)
                        == old(histories).download_of(k)
                &&& lines(frame) == dashboard_frame(
                    Seq::new(
                        payload.server_data@.len(),
                        |i: int| shown(payload.server_data@, *final(histories), i),
                    ),
                )
                &&& forall|r: int|
                    0 <= r < frame@.len() ==> (#[trigger] frame@[r])@.len() == frame@[0]@.len()
            },
        },
{
    let data: &Vec<Payload> = &payload.server_data;
    if let Some(entity) = first_incomplete(data) {
        return Err(DashError::MissingNetSpeed { entity });
    }
    let n: usize = data.len();
    let mut views: Vec<Metric> = Vec::new();
    let mut i: usize = 0;
    while i < n
        invariant
            i <= n,
            n == data@.len(),
            data@ == payload.server_data@,
            forall|k: int| 0 <= k < n ==> complete(#[trigger] data@[k]),
            histories.wf(),
            histories.spec_capacity() == old(histories).spec_capacity(),
            histories.spec_len() == if old(histories).spec_len() > i || i == 0 {
                old(histories).spec_len()
            } else {
                i as nat
            },
            forall|k: int|
                0 <= k < i ==> #[trigger] histories.upload_of(k) == newest(
                    old(histories).upload_of(k).push(data@[k].netspeed@[0]),
                    old(histories).spec_capacity(),
                ),
            forall|k: int|
                0 <= k < i ==> #[trigger] histories.download_of(k) == newest(
                    old(histories).download_of(k).push(data@[k].netspeed@[1]),
                    old(histories).spec_capacity(),
                ),
            forall|k: int|
                #![trigger histories.upload_of(k)]
                #![trigger old(histories).upload_of(k)]
                k < 0 || k >= i ==> histories.upload_of(k) == old(histories).upload_of(k),
            forall|k: int|
                #![trigger histories.download_of(k)]
                #![trigger old(histories).download_of(k)]
                k < 0 || k >= i ==> histories.download_of(k) == old(histories).download_of(k),
            views@.len() == i,
            forall|k: int| 0 <= k < i ==> (#[trigger] views@[k])@ == shown(data@, *histories, k),
        decreases n - i,
    {
        let sample: &Payload = &data[i];
        assert(complete(data@[i as int]));
        let upload: i64 = sample.netspeed[0];
        let download: i64 = sample.netspeed[1];
        let ghost before = *histories;
        histories.record(i, upload, download);
        assert forall|k: int| 0 <= k < i implies (#[trigger] views@[k])@ == shown(
            data@,
            *histories,
            k,
        ) by {
            assert(views@[k]@ == shown(data@, before, k));
            assert(histories.upload_of(k) == before.upload_of(k));
            assert(histories.download_of(k) == before.download_of(k));
        }
        views.push(histories.metric(i, sample.cpu, sample.ram, upload, download));
        i += 1;
    }
    let frame: Vec<String> = render_views(&views);
    assert(metric_views(views@) =~= Seq::new(
        payload.server_data@.len(),
        |i: int| shown(payload.server_data@, *histories, i),
    ));
    Ok(frame)
}

} // verus!
