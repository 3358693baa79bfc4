//! The record of one download job, in its decoded form and in its wire form.

use vstd::prelude::*;
use crate::decimal::{decimal, decode_u64, decoded, encode_u64, lemma_round_trip};
use crate::text::{clone_opt_text, clone_texts, same_opt_text, same_texts};

verus! {

/// The state that the download manager reports for a job: a closed set.
#[derive(Clone, Copy, Debug, PartialEq, Eq, Structural)]
pub enum JobStatus {
    Active,
    Waiting,
    Paused,
    Error,
    Complete,
    Removed,
}

/// The word that stands for a status on the wire.
pub open spec fn status_text(st: JobStatus) -> Seq<char> {
    match st {
        JobStatus::Active => "active"@,
        JobStatus::Waiting => "waiting"@,
        JobStatus::Paused => "paused"@,
        JobStatus::Error => "error"@,
        JobStatus::Complete => "complete"@,
        JobStatus::Removed => "removed"@,
    }
}

/// The status that a word stands for, if it is one of the six.
pub open spec fn parsed_status(s: Seq<char>) -> Option<JobStatus> {
    if s == "active"@ {
        Some(JobStatus::Active)
    } else if s == "waiting"@ {
        Some(JobStatus::Waiting)
    } else if s == "paused"@ {
        Some(JobStatus::Paused)
    } else if s == "error"@ {
        Some(JobStatus::Error)
    } else if s == "complete"@ {
        Some(JobStatus::Complete)
    } else if s == "removed"@ {
        Some(JobStatus::Removed)
    } else {
        None
    }
}

/// Each status reads back from its own word.
pub proof fn lemma_status_round_trip(st: JobStatus)
    ensures
        parsed_status(status_text(st)) == Some(st),
{
    reveal_strlit("active");
    reveal_strlit("waiting");
    reveal_strlit("paused");
    reveal_strlit("error");
    reveal_strlit("complete");
    reveal_strlit("removed");
    assert("active"@.len() == 6 && "active"@[0] == 'a');
    assert("waiting"@.len() == 7);
    assert("paused"@.len() == 6 && "paused"@[0] == 'p');
    assert("error"@.len() == 5);
    assert("complete"@.len() == 8);
    assert("removed"@.len() == 7 && "removed"@[0] == 'r' && "waiting"@[0] == 'w');
}

impl JobStatus {
    /// The word for this status.
    pub fn as_str(&self) -> (r: &'static str)
        ensures
            r@ == status_text(*self),
    {
        match self {
            JobStatus::Active => "active",
            JobStatus::Waiting => "waiting",
            JobStatus::Paused => "paused",
            JobStatus::Error => "error",
            JobStatus::Complete => "complete",
            JobStatus::Removed => "removed",
        }
    }

    /// Reads a status word; any other text is refused.
    pub fn parse(s: &String) -> (r: Option<JobStatus>)
        ensures
            r == parsed_status(s@),
    {
        if *s == "active".to_owned() {
            Some(JobStatus::Active)
        } else if *s == "waiting".to_owned() {
            Some(JobStatus::Waiting)
        } else if *s == "paused".to_owned() {
            Some(JobStatus::Paused)
        } else if *s == "error".to_owned() {
            Some(JobStatus::Error)
        } else if *s == "complete".to_owned() {
            Some(JobStatus::Complete)
        } else if *s == "removed".to_owned() {
            Some(JobStatus::Removed)
        } else {
            None
        }
    }
}

/// The name that a torrent's metadata gives it.
#[derive(Debug)]
pub struct TorrentInfo {
    pub name: String,
}

impl View for TorrentInfo {
    type V = Seq<char>;

    open spec fn view(&self) -> Seq<char> {
        self.name@
    }
}

impl Clone for TorrentInfo {
    fn clone(&self) -> (r: Self)
        ensures
            r@ == self@,
    {
        TorrentInfo { name: self.name.clone() }
    }
}

/// What a torrent-backed job carries besides the download itself.
#[derive(Debug)]
pub struct TorrentData {
    pub comment: Option<String>,
    pub info: Option<TorrentInfo>,
}

/// A `TorrentData` as plain values: `name` is the name inside `info`.
pub ghost struct TorrentView {
    pub comment: Option<Seq<char>>,
    pub name: Option<Seq<char>>,
}

impl View for TorrentData {
    type V = TorrentView;

    open spec fn view(&self) -> TorrentView {
        TorrentView {
            comment: self.comment.deep_view(),
            name: match self.info {
                Some(i) => Some(i@),
                None => None,
            },
        }
    }
}

impl Clone for TorrentData {
    fn clone(&self) -> (r: Self)
        ensures
            r@ == self@,
    {
        let info = match &self.info {
            Some(i) => Some(i.clone()),
            None => None,
        };
        TorrentData { comment: clone_opt_text(&self.comment), info }
    }
}

impl TorrentData {
    /// Whether two values carry the same comment and the same name.
    pub fn same(&self, other: &TorrentData) -> (r: bool)
        ensures
            r == (self@ == other@),
    {
        let names = match (&self.info, &other.info) {
            (Some(a), Some(b)) => a.name == b.name,
            (None, None) => true,
            _ => false,
        };
        names && same_opt_text(&self.comment, &other.comment)
    }
}

/// The view of an optional `TorrentData`.
pub open spec fn torrent_view(t: Option<TorrentData>) -> Option<TorrentView> {
    match t {
        Some(d) => Some(d@),
        None => None,
    }
}

fn clone_torrent(t: &Option<TorrentData>) -> (r: Option<TorrentData>)
    ensures
        torrent_view(r) == torrent_view(*t),
{
    match t {
        Some(d) => Some(d.clone()),
        None => None,
    }
}

fn same_torrent(a: &Option<TorrentData>, b: &Option<TorrentData>) -> (r: bool)
    ensures
        r == (torrent_view(*a) == torrent_view(*b)),
{
    match (a, b) {
        (Some(x), Some(y)) => x.same(y),
        (None, None) => true,
        _ => false,
    }
}

/// One download job as the rest of the library sees it: numbers decoded, the
/// status one of the six.
#[derive(Debug)]
pub struct LinkData {
    /// The identifier that the download manager gave the job.
    pub gid: String,
    pub status: JobStatus,
    pub total_length: u64,
    pub completed_length: u64,
    pub download_speed: u64,
    pub upload_speed: u64,
    pub connections: u64,
    pub bittorrent: Option<TorrentData>,
    pub num_seeders: Option<u64>,
    pub num_pieces: u64,
    pub piece_length: u64,
    /// The destination directory, as reported.
    pub dir: String,
    /// The paths of the job's files, in the order reported.
    pub files: Vec<String>,
}

/// A `LinkData` as plain values.
pub ghost struct LinkView {
    pub gid: Seq<char>,
    pub status: JobStatus,
    pub total_length: u64,
    pub completed_length: u64,
    pub download_speed: u64,
    pub upload_speed: u64,
    pub connections: u64,
    pub bittorrent: Option<TorrentView>,
    pub num_seeders: Option<u64>,
    pub num_pieces: u64,
    pub piece_length: u64,
    pub dir: Seq<char>,
    pub files: Seq<Seq<char>>,
}

impl View for LinkData {
    type V = LinkView;

    open spec fn view(&self) -> LinkView {
        LinkView {
            gid: self.gid@,
            status: self.status,
            total_length: self.total_length,
            completed_length: self.completed_length,
            download_speed: self.download_speed,
            upload_speed: self.upload_speed,
            connections: self.connections,
            bittorrent: torrent_view(self.bittorrent),
            num_seeders: self.num_seeders,
            num_pieces: self.num_pieces,
            piece_length: self.piece_length,
            dir: self.dir@,
            files: self.files.deep_view(),
        }
    }
}

impl LinkView {
    /// The name from the torrent's metadata, where the job has one.
    pub open spec fn bittorrent_name(self) -> Option<Seq<char>> {
        match self.bittorrent {
            Some(t) => t.name,
            None => None,
        }
    }

    /// No more is completed than there is in total, once the total is known.
    pub open spec fn lengths_consistent(self) -> bool {
        self.total_length != 0 ==> self.completed_length <= self.total_length
    }
}

impl Clone for LinkData {
    fn clone(&self) -> (r: Self)
        ensures
            r@ == self@,
    {
        LinkData {
            gid: self.gid.clone(),
            status: self.status,
            total_length: self.total_length,
            completed_length: self.completed_length,
            download_speed: self.download_speed,
            upload_speed: self.upload_speed,
            connections: self.connections,
            bittorrent: clone_torrent(&self.bittorrent),
            num_seeders: self.num_seeders,
            num_pieces: self.num_pieces,
            piece_length: self.piece_length,
            dir: self.dir.clone(),
            files: clone_texts(&self.files),
        }
    }
}

impl LinkData {
    /// Whether two records are equal field by field.
    pub fn same(&self, other: &LinkData) -> (r: bool)
        ensures
            r == (self@ == other@),
    {
        let seeders = match (self.num_seeders, other.num_seeders) {
            (Some(a), Some(b)) => a == b,
            (None, None) => true,
            _ => false,
        };
        self.gid == other.gid && self.status == other.status && self.total_length
            == other.total_length && self.completed_length == other.completed_length
            && self.download_speed == other.download_speed && self.upload_speed
            == other.upload_speed && self.connections == other.connections && same_torrent(
            &self.bittorrent,
            &other.bittorrent,
        ) && seeders && self.num_pieces == other.num_pieces && self.piece_length
            == other.piece_length && self.dir == other.dir && same_texts(&self.files, &other.files)
    }

    /// The name from the torrent's metadata, where the job has one.
    pub fn bittorrent_name(&self) -> (r: Option<String>)
        ensures
            r.deep_view() == self@.bittorrent_name(),
    {
        match &self.bittorrent {
            Some(t) => match &t.info {
                Some(i) => Some(i.name.clone()),
                None => None,
            },
            None => None,
        }
    }

    /// The name to show for the job: the torrent's name, or the empty text.
    pub fn display_name(&self) -> (r: String)
        ensures
            r@ == match self@.bittorrent_name() {
                Some(n) => n,
                None => Seq::<char>::empty(),
            },
    {
        match self.bittorrent_name() {
            Some(n) => n,
            None => String::new(),
        }
    }

    /// Whether the completed length is within the total, once the total is known.
    pub fn has_consistent_lengths(&self) -> (r: bool)
        ensures
            r == self@.lengths_consistent(),
    {
        self.total_length == 0 || self.completed_length <= self.total_length
    }
}

/// One download job as it travels: every number as decimal text, the status
/// as a word.
#[derive(Debug)]
pub struct WireLink {
    pub gid: String,
    pub status: String,
    pub total_length: String,
    pub completed_length: String,
    pub download_speed: String,
    pub upload_speed: String,
    pub connections: String,
    pub bittorrent: Option<TorrentData>,
    pub num_seeders: Option<String>,
    pub num_pieces: String,
    pub piece_length: String,
    pub dir: String,
    pub files: Vec<String>,
}

/// A `WireLink` as plain values.
pub ghost struct WireForm {
    pub gid: Seq<char>,
    pub status: Seq<char>,
    pub total_length: Seq<char>,
    pub completed_length: Seq<char>,
    pub download_speed: Seq<char>,
    pub upload_speed: Seq<char>,
    pub connections: Seq<char>,
    pub bittorrent: Option<TorrentView>,
    pub num_seeders: Option<Seq<char>>,
    pub num_pieces: Seq<char>,
    pub piece_length: Seq<char>,
    pub dir: Seq<char>,
    pub files: Seq<Seq<char>>,
}

impl View for WireLink {
    type V = WireForm;

    open spec fn view(&self) -> WireForm {
        WireForm {
            gid: self.gid@,
            status: self.status@,
            total_length: self.total_length@,
            completed_length: self.completed_length@,
            download_speed: self.download_speed@,
            upload_speed: self.upload_speed@,
            connections: self.connections@,
            bittorrent: torrent_view(self.bittorrent),
            num_seeders: self.num_seeders.deep_view(),
            num_pieces: self.num_pieces@,
            piece_length: self.piece_length@,
            dir: self.dir@,
            files: self.files.deep_view(),
        }
    }
}

/// The field of a wire record that could not be read.
#[derive(Clone, Copy, Debug, PartialEq, Eq, Structural)]
pub enum DecodeError {
    Status,
    TotalLength,
    CompletedLength,
    DownloadSpeed,
    UploadSpeed,
    Connections,
    NumSeeders,
    NumPieces,
    PieceLength,
}

/// What decoding a wire record gives: the record with every number read, or
/// the first field, in the order of `DecodeError`, that is malformed. A seeder
/// count that is absent stays absent; one that is present must be a number.
pub open spec fn decoded_link(w: WireForm) -> Result<LinkView, DecodeError> {
    if parsed_status(w.status) is None {
        Err(DecodeError::Status)
    } else if decoded(w.total_length) is None {
        Err(DecodeError::TotalLength)
    } else if decoded(w.completed_length) is None {
        Err(DecodeError::CompletedLength)
    } else if decoded(w.download_speed) is None {
        Err(DecodeError::DownloadSpeed)
    } else if decoded(w.upload_speed) is None {
        Err(DecodeError::UploadSpeed)
    } else if decoded(w.connections) is None {
        Err(DecodeError::Connections)
    } else if w.num_seeders is Some && decoded(w.num_seeders->0) is None {
        Err(DecodeError::NumSeeders)
    } else if decoded(w.num_pieces) is None {
        Err(DecodeError::NumPieces)
    } else if decoded(w.piece_length) is None {
        Err(DecodeError::PieceLength)
    } else {
        Ok(
            LinkView {
                gid: w.gid,
                status: parsed_status(w.status)->0,
                total_length: decoded(w.total_length)->0,
                completed_length: decoded(w.completed_length)->0,
                download_speed: decoded(w.download_speed)->0,
                upload_speed: decoded(w.upload_speed)->0,
                connections: decoded(w.connections)->0,
                bittorrent: w.bittorrent,
                num_seeders: match w.num_seeders {
                    Some(s) => decoded(s),
                    None => None,
                },
                num_pieces: decoded(w.num_pieces)->0,
                piece_length: decoded(w.piece_length)->0,
                dir: w.dir,
                files: w.files,
            },
        )
    }
}

/// The wire form of a record: every number as its canonical decimal text.
pub open spec fn encoded_link(l: LinkView) -> WireForm {
    WireForm {
        gid: l.gid,
        status: status_text(l.status),
        total_length: decimal(l.total_length as nat),
        completed_length: decimal(l.completed_length as nat),
        download_speed: decimal(l.download_speed as nat),
        upload_speed: decimal(l.upload_speed as nat),
        connections: decimal(l.connections as nat),
        bittorrent: l.bittorrent,
        num_seeders: match l.num_seeders {
            Some(n) => Some(decimal(n as nat)),
            None => None,
        },
        num_pieces: decimal(l.num_pieces as nat),
        piece_length: decimal(l.piece_length as nat),
        dir: l.dir,
        files: l.files,
    }
}

/// Encoding a record and decoding the result gives the record back, whatever
/// its numbers are.
pub proof fn lemma_link_round_trip(l: LinkView)
    ensures
        decoded_link(encoded_link(l)) == Ok::<LinkView, DecodeError>(l),
{
    lemma_status_round_trip(l.status);
    lemma_round_trip(l.total_length);
    lemma_round_trip(l.completed_length);
    lemma_round_trip(l.download_speed);
    lemma_round_trip(l.upload_speed);
    lemma_round_trip(l.connections);
    lemma_round_trip(l.num_pieces);
    lemma_round_trip(l.piece_length);
    if l.num_seeders is Some {
        lemma_round_trip(l.num_seeders->0);
    }
}

/// Decodes one wire record.
pub fn decode_link(w: &WireLink) -> (r: Result<LinkData, DecodeError>)
    ensures
        match r {
            Ok(l) => decoded_link(w@) == Ok::<LinkView, DecodeError>(l@),
            Err(e) => decoded_link(w@) == Err::<LinkView, DecodeError>(e),
        },
{
    let status = match JobStatus::parse(&w.status) {
        Some(s) => s,
        None => {
            return Err(DecodeError::Status);
        },
    };
    let total_length: u64 = match decode_u64(w.total_length.as_str()) {
        Some(n) => n,
        None => {
            return Err(DecodeError::TotalLength);
        },
    };
    let completed_length: u64 = match decode_u64(w.completed_length.as_str()) {
        Some(n) => n,
        None => {
            return Err(DecodeError::CompletedLength);
        },
    };
    let download_speed: u64 = match decode_u64(w.download_speed.as_str()) {
        Some(n) => n,
        None => {
            return Err(DecodeError::DownloadSpeed);
        },
    };
    let upload_speed: u64 = match decode_u64(w.upload_speed.as_str()) {
        Some(n) => n,
        None => {
            return Err(DecodeError::UploadSpeed);
        },
    };
    let connections: u64 = match decode_u64(w.connections.as_str()) {
        Some(n) => n,
        None => {
            return Err(DecodeError::Connections);
        },
    };
    let num_seeders: Option<u64> = match &w.num_seeders {
        Some(s) => match decode_u64(s.as_str()) {
            Some(n) => Some(n),
            None => {
                return Err(DecodeError::NumSeeders);
            },
        },
        None => None,
    };
    let num_pieces: u64 = match decode_u64(w.num_pieces.as_str()) {
        Some(n) => n,
        None => {
            return Err(DecodeError::NumPieces);
        },
    };
    let piece_length: u64 = match decode_u64(w.piece_length.as_str()) {
        Some(n) => n,
        None => {
            return Err(DecodeError::PieceLength);
        },
    };
    Ok(
        LinkData {
            gid: w.gid.clone(),
            status,
            total_length,
            completed_length,
            download_speed,
            upload_speed,
            connections,
            bittorrent: clone_torrent(&w.bittorrent),
            num_seeders,
            num_pieces,
            piece_length,
            dir: w.dir.clone(),
            files: clone_texts(&w.files),
        },
    )
}

/// Encodes one record for the wire.
pub fn encode_link(l: &LinkData) -> (w: WireLink)
    ensures
        w@ == encoded_link(l@),
{
    let num_seeders = match l.num_seeders {
        Some(n) => Some(encode_u64(n)),
        None => None,
    };
    WireLink {
        gid: l.gid.clone(),
        status: l.status.as_str().to_owned(),
        total_length: encode_u64(l.total_length),
        completed_length: encode_u64(l.completed_length),
        download_speed: encode_u64(l.download_speed),
        upload_speed: encode_u64(l.upload_speed),
        connections: encode_u64(l.connections),
        bittorrent: clone_torrent(&l.bittorrent),
        num_seeders,
        num_pieces: encode_u64(l.num_pieces),
        piece_length: encode_u64(l.piece_length),
        dir: l.dir.clone(),
        files: clone_texts(&l.files),
    }
}

} // verus!
