//! Fetching an archive: the bytes that arrive are digested and written as they come.

use crate::build::upstream::Plain;
use crate::digest;
use crate::effect::{FetchError, IoError, RequestError, Step};
use crate::upstream::plain;
use crate::uri::Url;
use vstd::prelude::*;
use vstd::utf8::*;

verus! {

/// The stages of a download.
#[derive(Debug)]
pub enum DownloadStage {
    /// The request is being made.
    Open,
    /// The file is being created.
    Create,
    /// The next bytes are awaited.
    Next,
    /// These bytes are being written.
    Write(Vec<u8>),
    /// The file is being flushed.
    Flush,
}

/// Something for the host of a download to do.
#[derive(Debug)]
pub enum DownloadAction<'a> {
    /// Request the URL.
    Open(&'a str),
    /// Create the file.
    Create(&'a str),
    /// Wait for the next bytes, or the end.
    Next,
    /// Report these bytes as received, and write them to the file.
    Write(&'a [u8]),
    /// Flush the file.
    Flush,
}

/// What a download waits for, as contracts see it.
pub enum DownloadWanted {
    Open(Seq<char>),
    Create(Seq<char>),
    Next,
    Write(Seq<u8>),
    Flush,
}

impl<'a> View for DownloadAction<'a> {
    type V = DownloadWanted;

    open spec fn view(&self) -> DownloadWanted {
        match *self {
            DownloadAction::Open(url) => DownloadWanted::Open(url@),
            DownloadAction::Create(path) => DownloadWanted::Create(path@),
            DownloadAction::Next => DownloadWanted::Next,
            DownloadAction::Write(bytes) => DownloadWanted::Write(bytes@),
            DownloadAction::Flush => DownloadWanted::Flush,
        }
    }
}

/// The host's answer.
#[derive(Debug)]
pub enum DownloadReply {
    /// To [`DownloadAction::Open`].
    Opened(Result<(), RequestError>),
    /// To the actions on the file.
    Io(Result<(), IoError>),
    /// To [`DownloadAction::Next`].
    Chunk(Option<Result<Vec<u8>, RequestError>>),
}

/// A download, as contracts see it.
pub struct DownloadView {
    pub url: Seq<char>,
    pub dest: Seq<char>,
    /// The bytes that have been digested.
    pub absorbed: Seq<u8>,
    pub stage: DownloadStage,
}

/// Where a reply takes a download.
pub enum DownloadNext {
    /// It goes on.
    Goes(DownloadView),
    /// It ends with this digest.
    Ends(Seq<char>),
    /// It fails.
    Fails(FetchError),
}

impl DownloadView {
    /// A download that has not begun.
    pub open spec fn new(url: Seq<char>, dest: Seq<char>) -> DownloadView {
        DownloadView { url, dest, absorbed: Seq::empty(), stage: DownloadStage::Open }
    }

    /// The action that the download waits for.
    pub open spec fn wants(self) -> DownloadWanted {
        match self.stage {
            DownloadStage::Open => DownloadWanted::Open(self.url),
            DownloadStage::Create => DownloadWanted::Create(self.dest),
            DownloadStage::Next => DownloadWanted::Next,
            DownloadStage::Write(bytes) => DownloadWanted::Write(bytes@),
            DownloadStage::Flush => DownloadWanted::Flush,
        }
    }

    /// Whether there is room for the bytes of a reply.
    pub open spec fn has_room_for(self, reply: DownloadReply) -> bool {
        reply matches DownloadReply::Chunk(Some(Ok(bytes))) ==> self.absorbed.len() + bytes@.len()
            < digest::SHA256_LIMIT
    }

    /// The same download, at another stage.
    pub open spec fn at(self, stage: DownloadStage) -> DownloadView {
        DownloadView { stage, ..self }
    }

    /// Where the reply takes the download. A reply of another kind than it waits for leaves
    /// it where it is.
    pub open spec fn after(self, reply: DownloadReply) -> DownloadNext {
        match (self.stage, reply) {
            (DownloadStage::Open, DownloadReply::Opened(Ok(_))) => DownloadNext::Goes(
                self.at(DownloadStage::Create),
            ),
            (DownloadStage::Open, DownloadReply::Opened(Err(error))) => DownloadNext::Fails(
                FetchError::Request(error),
            ),
            (DownloadStage::Create | DownloadStage::Write(_), DownloadReply::Io(Ok(_))) => {
                DownloadNext::Goes(self.at(DownloadStage::Next))
            },
            (DownloadStage::Next, DownloadReply::Chunk(Some(Ok(bytes)))) => DownloadNext::Goes(
                DownloadView {
                    absorbed: self.absorbed + bytes@,
                    stage: DownloadStage::Write(bytes),
                    ..self
                },
            ),
            (DownloadStage::Next, DownloadReply::Chunk(Some(Err(error)))) => DownloadNext::Fails(
                FetchError::Request(error),
            ),
            (DownloadStage::Next, DownloadReply::Chunk(None)) => DownloadNext::Goes(
                self.at(DownloadStage::Flush),
            ),
            (DownloadStage::Flush, DownloadReply::Io(Ok(_))) => DownloadNext::Ends(
                digest::hex(digest::sha256(self.absorbed)),
            ),
            (
                DownloadStage::Create | DownloadStage::Write(_) | DownloadStage::Flush,
                DownloadReply::Io(Err(error)),
            ) => DownloadNext::Fails(FetchError::Io(error)),
            _ => DownloadNext::Goes(self),
        }
    }
}

/// A download to a file.
#[derive(Debug)]
pub struct Download {
    url: String,
    dest: String,
    hasher: sha2::Sha256,
    received: u64,
    stage: DownloadStage,
}

impl View for Download {
    type V = DownloadView;

    closed spec fn view(&self) -> DownloadView {
        DownloadView {
            url: self.url@,
            dest: self.dest@,
            absorbed: digest::absorbed(self.hasher),
            stage: self.stage,
        }
    }
}

impl Download {
    /// As many bytes have been counted as have been digested, and they are not too many.
    #[verifier::type_invariant]
    spec fn has_counted(self) -> bool {
        self.received == digest::absorbed(self.hasher).len() && self.received
            < digest::SHA256_LIMIT
    }

    /// Whether so many bytes more can be digested.
    pub fn has_room(&self, len: usize) -> (room: bool)
        ensures
            room == (self@.absorbed.len() + len < digest::SHA256_LIMIT),
    {
        proof {
            use_type_invariant(self);
        }
        let left: u64 = digest::SHA256_LIMIT - self.received;
        (len as u64) < left
    }

    /// Says which action the download waits for.
    pub fn action(&self) -> (action: DownloadAction<'_>)
        ensures
            action@ == self@.wants(),
    {
        match &self.stage {
            DownloadStage::Open => DownloadAction::Open(self.url.as_str()),
            DownloadStage::Create => DownloadAction::Create(self.dest.as_str()),
            DownloadStage::Next => DownloadAction::Next,
            DownloadStage::Write(bytes) => DownloadAction::Write(bytes.as_slice()),
            DownloadStage::Flush => DownloadAction::Flush,
        }
    }

    /// Takes the reply to that action.
    pub fn resume(self, reply: DownloadReply) -> (step: Step<
        Download,
        Result<plain::Hash, FetchError>,
    >)
        requires
            self@.has_room_for(reply),
        ensures
            self@.after(reply) == match step {
                Step::Perform(next) => DownloadNext::Goes(next@),
                Step::Done(Ok(hash)) => DownloadNext::Ends(hash@),
                Step::Done(Err(error)) => DownloadNext::Fails(error),
            },
            step matches Step::Done(Ok(hash)) ==> hash@.len() == 64,
    {
        proof {
            use_type_invariant(&self);
        }
        let Download { url, dest, hasher, received, stage } = self;
        let mut hasher = hasher;
        let mut received = received;
        let stage = match (stage, reply) {
            (DownloadStage::Open, DownloadReply::Opened(Ok(_))) => DownloadStage::Create,
            (DownloadStage::Open, DownloadReply::Opened(Err(error))) => {
                return Step::Done(Err(FetchError::Request(error)));
            },
            (DownloadStage::Create, DownloadReply::Io(Ok(_))) => DownloadStage::Next,
            (DownloadStage::Write(_), DownloadReply::Io(Ok(_))) => DownloadStage::Next,
            (DownloadStage::Next, DownloadReply::Chunk(Some(Ok(bytes)))) => {
                digest::feed(&mut hasher, bytes.as_slice());
                received = received + bytes.len() as u64;
                DownloadStage::Write(bytes)
            },
            (DownloadStage::Next, DownloadReply::Chunk(Some(Err(error)))) => {
                return Step::Done(Err(FetchError::Request(error)));
            },
            (DownloadStage::Next, DownloadReply::Chunk(None)) => DownloadStage::Flush,
            (DownloadStage::Flush, DownloadReply::Io(Ok(_))) => {
                return Step::Done(hash_of(hasher));
            },
            (DownloadStage::Open, _) => DownloadStage::Open,
            (DownloadStage::Next, _) => DownloadStage::Next,
            (_, DownloadReply::Io(Err(error))) => {
                return Step::Done(Err(FetchError::Io(error)));
            },
            (stage, _) => stage,
        };
        Step::Perform(Download { url, dest, hasher, received, stage })
    }
}

/// The digest of what a hasher has absorbed, as a [`plain::Hash`].
fn hash_of(hasher: sha2::Sha256) -> (hash: Result<plain::Hash, FetchError>)
    requires
        digest::absorbed(hasher).len() < digest::SHA256_LIMIT,
    ensures
        hash matches Ok(hash) && hash@ == digest::hex(digest::sha256(digest::absorbed(hasher)))
            && hash@.len() == 64,
{
    let digest = digest::finish(hasher);
    let text = digest::encode_hex(digest.as_slice());
    proof {
        digest::lemma_hex_is_ascii(digest@);
        is_ascii_chars_encode_utf8(text@);
        plain::Hash::lemma_parsed(text);
    }
    match plain::Hash::of_text(text) {
        Ok(hash) => Ok(hash),
        Err(error) => Err(FetchError::ParseHash(error)),
    }
}

impl Plain {
    /// Fetches an archive to a file.
    pub fn fetch(url: &Url, dest_file: &str) -> (download: Download)
        ensures
            download@ == DownloadView::new(url@.text, dest_file@),
    {
        Download {
            url: url.as_str().to_owned(),
            dest: dest_file.to_owned(),
            hasher: digest::new_hasher(),
            received: 0,
            stage: DownloadStage::Open,
        }
    }
}

/// Where replies take a download.
pub open spec fn run(download: DownloadView, replies: Seq<DownloadReply>) -> DownloadNext
    decreases replies.len(),
{
    if replies.len() == 0 {
        DownloadNext::Goes(download)
    } else {
        match download.after(replies[0]) {
            DownloadNext::Goes(next) => run(next, replies.drop_first()),
            end => end,
        }
    }
}

/// Whether a fetch is what a download comes to.
pub open spec fn comes_to(next: DownloadNext, fetched: Result<plain::Hash, FetchError>) -> bool {
    match fetched {
        Ok(hash) => next == DownloadNext::Ends(hash@),
        Err(error) => next == DownloadNext::Fails(error),
    }
}

/// The bytes that have been written to the file: those that the host was asked to write, and
/// did, one write after another.
pub open spec fn written(download: DownloadView, replies: Seq<DownloadReply>) -> Seq<u8>
    decreases replies.len(),
{
    if replies.len() == 0 {
        Seq::empty()
    } else {
        let now = match (download.wants(), replies[0]) {
            (DownloadWanted::Write(bytes), DownloadReply::Io(Ok(_))) => bytes,
            _ => Seq::empty(),
        };
        match download.after(replies[0]) {
            DownloadNext::Goes(next) => now + written(next, replies.drop_first()),
            _ => now,
        }
    }
}

/// The bytes that have arrived: those that the host handed over when it was asked for the next
/// ones, one after another.
pub open spec fn arrived(download: DownloadView, replies: Seq<DownloadReply>) -> Seq<u8>
    decreases replies.len(),
{
    if replies.len() == 0 {
        Seq::empty()
    } else {
        let now = match (download.wants(), replies[0]) {
            (DownloadWanted::Next, DownloadReply::Chunk(Some(Ok(bytes)))) => bytes@,
            _ => Seq::empty(),
        };
        match download.after(replies[0]) {
            DownloadNext::Goes(next) => now + arrived(next, replies.drop_first()),
            _ => now,
        }
    }
}

/// A download that ends well has written all bytes that arrived, in their order, and nothing
/// else; and the digest that it ends with is that of these bytes.
pub proof fn lemma_download_digests_what_it_writes(
    download: DownloadView,
    replies: Seq<DownloadReply>,
)
    requires
        download.stage is Open,
        download.absorbed == Seq::<u8>::empty(),
    ensures
        run(download, replies) matches DownloadNext::Ends(hash) ==> {
            &&& hash == digest::hex(digest::sha256(written(download, replies)))
            &&& written(download, replies) == arrived(download, replies)
        },
{
    let none = Seq::<u8>::empty();
    lemma_download_from(download, none, none, replies);
    assert(none + written(download, replies) =~= written(download, replies));
    assert(none + arrived(download, replies) =~= arrived(download, replies));
}

proof fn lemma_download_from(
    download: DownloadView,
    before: Seq<u8>,
    pending: Seq<u8>,
    replies: Seq<DownloadReply>,
)
    requires
        download.absorbed == before + pending,
        pending == match download.stage {
            DownloadStage::Write(bytes) => bytes@,
            _ => Seq::empty(),
        },
    ensures
        run(download, replies) matches DownloadNext::Ends(hash) ==> {
            &&& hash == digest::hex(digest::sha256(before + written(download, replies)))
            &&& written(download, replies) == pending + arrived(download, replies)
        },
    decreases replies.len(),
{
    let none = Seq::<u8>::empty();
    assert(before + none =~= before);
    assert(none + none =~= none);
    if replies.len() > 0 {
        let rest = replies.drop_first();
        match download.after(replies[0]) {
            DownloadNext::Goes(next) => {
                let later = written(next, rest);
                let coming = arrived(next, rest);
                assert(none + later =~= later);
                assert(none + coming =~= coming);
                match (download.stage, replies[0]) {
                    (DownloadStage::Write(bytes), DownloadReply::Io(Ok(_))) => {
                        assert(next.absorbed =~= (before + bytes@) + none);
                        lemma_download_from(next, before + bytes@, none, rest);
                        assert(before + bytes@ + later =~= before + (bytes@ + later));
                    },
                    (DownloadStage::Next, DownloadReply::Chunk(Some(Ok(bytes)))) => {
                        assert(next.absorbed =~= before + bytes@);
                        lemma_download_from(next, before, bytes@, rest);
                    },
                    _ => {
                        lemma_download_from(next, before, pending, rest);
                    },
                }
            },
            _ => {},
        }
    }
}

/// All bytes of a stream that comes in pieces.
pub open spec fn concat(chunks: Seq<Vec<u8>>) -> Seq<u8>
    decreases chunks.len(),
{
    if chunks.len() == 0 {
        Seq::empty()
    } else {
        chunks[0]@ + concat(chunks.drop_first())
    }
}

/// The replies of a host that has the stream and can write it, from the first piece on.
pub open spec fn stream(chunks: Seq<Vec<u8>>) -> Seq<DownloadReply>
    decreases chunks.len(),
{
    if chunks.len() == 0 {
        seq![DownloadReply::Chunk(None), DownloadReply::Io(Ok(()))]
    } else {
        seq![DownloadReply::Chunk(Some(Ok(chunks[0]))), DownloadReply::Io(Ok(()))] + stream(
            chunks.drop_first(),
        )
    }
}

/// A stream that arrives and can be written is downloaded, and its digest is reported. How it
/// was cut into pieces makes no difference.
pub proof fn lemma_download_of_stream(download: DownloadView, chunks: Seq<Vec<u8>>)
    requires
        download.stage is Open,
        download.absorbed == Seq::<u8>::empty(),
    ensures
        run(
            download,
            seq![DownloadReply::Opened(Ok(())), DownloadReply::Io(Ok(()))] + stream(chunks),
        ) == DownloadNext::Ends(digest::hex(digest::sha256(concat(chunks)))),
{
    reveal_with_fuel(run, 3);
    let replies = seq![DownloadReply::Opened(Ok(())), DownloadReply::Io(Ok(()))] + stream(chunks);
    assert(replies.drop_first().drop_first() =~= stream(chunks));
    lemma_download_of_rest(download.at(DownloadStage::Next), chunks);
    assert(Seq::<u8>::empty() + concat(chunks) =~= concat(chunks));
}

proof fn lemma_download_of_rest(download: DownloadView, chunks: Seq<Vec<u8>>)
    requires
        download.stage is Next,
    ensures
        run(download, stream(chunks)) == DownloadNext::Ends(
            digest::hex(digest::sha256(download.absorbed + concat(chunks))),
        ),
    decreases chunks.len(),
{
    let replies = stream(chunks);
    reveal_with_fuel(run, 3);
    assert(replies.drop_first().drop_first() =~= replies.skip(2));
    if chunks.len() == 0 {
        assert(download.absorbed + concat(chunks) =~= download.absorbed);
    } else {
        let next = DownloadView {
            absorbed: download.absorbed + chunks[0]@,
            stage: DownloadStage::Next,
            ..download
        };
        assert(replies.skip(2) =~= stream(chunks.drop_first()));
        lemma_download_of_rest(next, chunks.drop_first());
        assert(next.absorbed + concat(chunks.drop_first()) =~= download.absorbed + concat(chunks));
    }
}

/// The actions that a download waits for, up to the last one that a reply was given to.
pub open spec fn trace(download: DownloadView, replies: Seq<DownloadReply>) -> Seq<DownloadWanted>
    decreases replies.len(),
{
    if replies.len() == 0 {
        Seq::empty()
    } else {
        seq![download.wants()] + match download.after(replies[0]) {
            DownloadNext::Goes(next) => trace(next, replies.drop_first()),
            _ => Seq::empty(),
        }
    }
}

/// The steps of writing a stream piece by piece, and of flushing the file at its end.
pub open spec fn writing(chunks: Seq<Vec<u8>>) -> Seq<DownloadWanted>
    decreases chunks.len(),
{
    if chunks.len() == 0 {
        seq![DownloadWanted::Next, DownloadWanted::Flush]
    } else {
        seq![DownloadWanted::Next, DownloadWanted::Write(chunks[0]@)] + writing(
            chunks.drop_first(),
        )
    }
}

/// A download requests its URL and creates its file. Then it writes every piece of the stream,
/// whole and as soon as it arrives, and flushes the file once there are no more.
pub proof fn lemma_download_steps(url: Seq<char>, dest: Seq<char>, chunks: Seq<Vec<u8>>)
    ensures
        trace(
            DownloadView::new(url, dest),
            seq![DownloadReply::Opened(Ok(())), DownloadReply::Io(Ok(()))] + stream(chunks),
        ) == seq![DownloadWanted::Open(url), DownloadWanted::Create(dest)] + writing(chunks),
        run(
            DownloadView::new(url, dest),
            seq![DownloadReply::Opened(Ok(())), DownloadReply::Io(Ok(()))] + stream(chunks),
        ) == DownloadNext::Ends(digest::hex(digest::sha256(concat(chunks)))),
{
    reveal_with_fuel(trace, 3);
    lemma_download_of_stream(DownloadView::new(url, dest), chunks);
    let replies = seq![DownloadReply::Opened(Ok(())), DownloadReply::Io(Ok(()))] + stream(chunks);
    assert(replies.drop_first().drop_first() =~= stream(chunks));
    let download = DownloadView::new(url, dest);
    lemma_download_writes(download.at(DownloadStage::Next), chunks);
    assert(trace(download, replies) =~= seq![
        DownloadWanted::Open(url),
        DownloadWanted::Create(dest),
    ] + writing(chunks));
}

proof fn lemma_download_writes(download: DownloadView, chunks: Seq<Vec<u8>>)
    requires
        download.stage is Next,
    ensures
        trace(download, stream(chunks)) == writing(chunks),
    decreases chunks.len(),
{
    let replies = stream(chunks);
    reveal_with_fuel(trace, 3);
    if chunks.len() == 0 {
        assert(trace(download, replies) =~= writing(chunks));
    } else {
        let next = DownloadView {
            absorbed: download.absorbed + chunks[0]@,
            stage: DownloadStage::Next,
            ..download
        };
        assert(replies.drop_first().drop_first() =~= stream(chunks.drop_first()));
        lemma_download_writes(next, chunks.drop_first());
        assert(trace(download, replies) =~= writing(chunks));
    }
}

/// Whatever fails ends a download with its error, wherever it stands; and a reply to something
/// else than it waits for leaves it where it is.
pub proof fn lemma_download_fails(download: DownloadView, reply: DownloadReply)
    ensures
        match (download.wants(), reply) {
            (DownloadWanted::Open(_), DownloadReply::Opened(Err(error))) => download.after(reply)
                == DownloadNext::Fails(FetchError::Request(error)),
            (DownloadWanted::Next, DownloadReply::Chunk(Some(Err(error)))) => download.after(reply)
                == DownloadNext::Fails(FetchError::Request(error)),
            (
                DownloadWanted::Create(_) | DownloadWanted::Write(_) | DownloadWanted::Flush,
                DownloadReply::Io(Err(error)),
            ) => download.after(reply) == DownloadNext::Fails(FetchError::Io(error)),
            (DownloadWanted::Open(_), DownloadReply::Opened(Ok(_))) => true,
            (DownloadWanted::Next, DownloadReply::Chunk(_)) => true,
            (
                DownloadWanted::Create(_) | DownloadWanted::Write(_) | DownloadWanted::Flush,
                DownloadReply::Io(Ok(_)),
            ) => true,
            _ => download.after(reply) == DownloadNext::Goes(download),
        },
        download.after(reply) is Ends ==> download.wants() is Flush,
{
}

/// Contracts see what a download asks for as it is, and there is room for a reply as long as
/// the bytes digested, with those that it brings, are fewer than two to the sixty-first.
pub proof fn lemma_download_is_seen_as_it_is(
    action: DownloadAction<'_>,
    download: DownloadView,
    reply: DownloadReply,
)
    ensures
        match action {
            DownloadAction::Open(url) => action@ == DownloadWanted::Open(url@),
            DownloadAction::Create(path) => action@ == DownloadWanted::Create(path@),
            DownloadAction::Next => action@ is Next,
            DownloadAction::Write(bytes) => action@ == DownloadWanted::Write(bytes@),
            DownloadAction::Flush => action@ is Flush,
        },
        match reply {
            DownloadReply::Chunk(Some(Ok(bytes))) => download.has_room_for(reply) <==>
                download.absorbed.len() + bytes@.len() < 0x2000_0000_0000_0000,
            _ => download.has_room_for(reply),
        },
{
}

} // verus!
