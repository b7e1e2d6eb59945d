//! An in-memory stand-in for the upstream service, for development and tests:
//! meetings by id, meeting rooms, and room bookings by meeting id.
use vstd::prelude::*;
use crate::client::{MeetingInfo, MeetingRoomItem};

verus! {

/// Position of the entry keyed `key`, if any.
pub open spec fn key_index<V>(entries: Seq<(String, V)>, key: Seq<char>) -> Option<int> {
    if exists|i: int| 0 <= i < entries.len() && (#[trigger] entries[i]).0@ == key {
        Some(choose|i: int| 0 <= i < entries.len() && (#[trigger] entries[i]).0@ == key)
    } else {
        None
    }
}

/// Keys are unique.
pub open spec fn keys_unique<V>(entries: Seq<(String, V)>) -> bool {
    forall|i: int, j: int|
        0 <= i < entries.len() && 0 <= j < entries.len() && i != j ==> (#[trigger] entries[i]).0@ != (#[trigger] entries[j]).0@
}

fn find_key<V>(entries: &Vec<(String, V)>, key: &str) -> (r: Option<usize>)
    requires
        keys_unique(entries@),
    ensures
        match r {
            Some(i) => i < entries@.len() && entries@[i as int].0@ == key@ && key_index(entries@, key@) == Some(i as int),
            None => key_index(entries@, key@) is None,
        },
{
    let k = String::from_str(key);
    let mut i: usize = 0;
    while i < entries.len()
        invariant
            i <= entries@.len(),
            k@ == key@,
            keys_unique(entries@),
            forall|j: int| 0 <= j < i ==> (#[trigger] entries@[j]).0@ != key@,
        decreases entries@.len() - i,
    {
        if entries[i].0 == k {
            proof {
                let c = choose|c: int| 0 <= c < entries@.len() && (#[trigger] entries@[c]).0@ == key@;
                if c != i {
                    assert(entries@[c].0@ != entries@[i as int].0@);
                }
            }
            return Some(i);
        }
        i = i + 1;
    }
    None
}

/// The two sample rooms of a fresh store.
pub open spec fn sample_room_ids() -> Seq<Seq<char>> {
    seq!["room1"@, "room2"@]
}

/// An in-memory stand-in for the upstream service.
#[derive(Debug)]
pub struct MockDataStore {
    meetings: Vec<(String, MeetingInfo)>,
    rooms: Vec<MeetingRoomItem>,
    booked_rooms: Vec<(String, Vec<String>)>,
}

impl MockDataStore {
    /// Meetings by id, in order of first storing.
    pub closed spec fn meetings_view(&self) -> Seq<(String, MeetingInfo)> {
        self.meetings@
    }

    /// The rooms, in listing order.
    pub closed spec fn rooms_view(&self) -> Seq<MeetingRoomItem> {
        self.rooms@
    }

    /// Booked room ids by meeting id.
    pub closed spec fn bookings_view(&self) -> Seq<(String, Vec<String>)> {
        self.booked_rooms@
    }

    /// Ids are unique in both tables.
    pub open spec fn wf(&self) -> bool {
        keys_unique(self.meetings_view()) && keys_unique(self.bookings_view())
    }

    /// A store with no meetings or bookings and two sample rooms, `room1`
    /// (Conference Room A, 20 seats) and `room2` (Conference Room B, 10 seats).
    pub fn new() -> (r: MockDataStore)
        ensures
            r.wf(),
            r.meetings_view().len() == 0,
            r.bookings_view().len() == 0,
            r.rooms_view().len() == 2,
            r.rooms_view()[0].meeting_room_id@ == "room1"@,
            r.rooms_view()[0].meeting_room_name@ == "Conference Room A"@,
            r.rooms_view()[0].participant_number == 20,
            r.rooms_view()[1].meeting_room_id@ == "room2"@,
            r.rooms_view()[1].meeting_room_name@ == "Conference Room B"@,
            r.rooms_view()[1].participant_number == 10,
    {
        let mut rooms: Vec<MeetingRoomItem> = Vec::new();
        rooms.push(
            MeetingRoomItem {
                meeting_room_id: String::from_str("room1"),
                meeting_room_name: String::from_str("Conference Room A"),
                meeting_room_location: String::from_str("Floor 1"),
                account_new_type: 1,
                account_type: 1,
                active_code: String::from_str("RC001"),
                participant_number: 20,
                meeting_room_status: 1,
                scheduled_status: 0,
                is_allow_call: true,
            },
        );
        rooms.push(
            MeetingRoomItem {
                meeting_room_id: String::from_str("room2"),
                meeting_room_name: String::from_str("Conference Room B"),
                meeting_room_location: String::from_str("Floor 2"),
                account_new_type: 1,
                account_type: 1,
                active_code: String::from_str("RC002"),
                participant_number: 10,
                meeting_room_status: 1,
                scheduled_status: 0,
                is_allow_call: true,
            },
        );
        MockDataStore { meetings: Vec::new(), rooms, booked_rooms: Vec::new() }
    }

    /// Stores a meeting under its id, replacing one stored under the same id.
    pub fn store_meeting(&mut self, meeting_id: String, meeting_info: MeetingInfo)
        requires
            old(self).wf(),
        ensures
            final(self).wf(),
            final(self).rooms_view() == old(self).rooms_view(),
            final(self).bookings_view() == old(self).bookings_view(),
            match key_index(old(self).meetings_view(), meeting_id@) {
                Some(i) => final(self).meetings_view() == old(self).meetings_view().update(i, (meeting_id, meeting_info)),
                None => final(self).meetings_view() == old(self).meetings_view().push((meeting_id, meeting_info)),
            },
    {
        match find_key(&self.meetings, meeting_id.as_str()) {
            Some(i) => {
                let ghost before = self.meetings@;
                self.meetings.set(i, (meeting_id, meeting_info));
                proof {
                    assert forall|a: int, b: int|
                        0 <= a < self.meetings@.len() && 0 <= b < self.meetings@.len() && a != b implies (#[trigger] self.meetings@[a]).0@
                        != (#[trigger] self.meetings@[b]).0@ by {
                        if a != i && b != i {
                            assert(self.meetings@[a] == before[a]);
                            assert(self.meetings@[b] == before[b]);
                        } else if a == i {
                            assert(self.meetings@[b] == before[b]);
                        } else {
                            assert(self.meetings@[a] == before[a]);
                        }
                    }
                }
            },
            None => {
                let ghost before = self.meetings@;
                self.meetings.push((meeting_id, meeting_info));
                proof {
                    assert forall|a: int, b: int|
                        0 <= a < self.meetings@.len() && 0 <= b < self.meetings@.len() && a != b implies (#[trigger] self.meetings@[a]).0@
                        != (#[trigger] self.meetings@[b]).0@ by {
                        if a < before.len() && b < before.len() {
                            assert(self.meetings@[a] == before[a]);
                            assert(self.meetings@[b] == before[b]);
                        } else if a < before.len() {
                            assert(self.meetings@[a] == before[a]);
                        } else {
                            assert(self.meetings@[b] == before[b]);
                        }
                    }
                }
            },
        }
    }

    /// The meeting stored under `meeting_id`, if any.
    pub fn get_meeting(&self, meeting_id: &str) -> (r: Option<&MeetingInfo>)
        requires
            self.wf(),
        ensures
            match key_index(self.meetings_view(), meeting_id@) {
                Some(i) => r == Some(&self.meetings_view()[i].1),
                None => r is None,
            },
    {
        match find_key(&self.meetings, meeting_id) {
            Some(i) => Some(&self.meetings[i].1),
            None => None,
        }
    }

    /// Removes the meeting stored under `meeting_id`; says whether there was one.
    pub fn cancel_meeting(&mut self, meeting_id: &str) -> (r: bool)
        requires
            old(self).wf(),
        ensures
            final(self).wf(),
            final(self).rooms_view() == old(self).rooms_view(),
            final(self).bookings_view() == old(self).bookings_view(),
            match key_index(old(self).meetings_view(), meeting_id@) {
                Some(i) => r && final(self).meetings_view() == old(self).meetings_view().remove(i),
                None => !r && final(self).meetings_view() == old(self).meetings_view(),
            },
    {
        match find_key(&self.meetings, meeting_id) {
            Some(i) => {
                let ghost before = self.meetings@;
                self.meetings.remove(i);
                proof {
                    assert forall|a: int, b: int|
                        0 <= a < self.meetings@.len() && 0 <= b < self.meetings@.len() && a != b implies (#[trigger] self.meetings@[a]).0@
                        != (#[trigger] self.meetings@[b]).0@ by {
                        let a2 = if a < i { a } else { a + 1 };
                        let b2 = if b < i { b } else { b + 1 };
                        assert(self.meetings@[a] == before[a2]);
                        assert(self.meetings@[b] == before[b2]);
                    }
                }
                true
            },
            None => false,
        }
    }

    /// Records the rooms booked for a meeting, replacing an earlier booking.
    pub fn book_room(&mut self, meeting_id: &str, room_ids: &[String]) -> (r: bool)
        requires
            old(self).wf(),
        ensures
            r,
            final(self).wf(),
            final(self).rooms_view() == old(self).rooms_view(),
            final(self).meetings_view() == old(self).meetings_view(),
            ({
                let rows = final(self).bookings_view();
                match key_index(old(self).bookings_view(), meeting_id@) {
                    Some(i) => rows.len() == old(self).bookings_view().len() && rows[i].0@ == meeting_id@
                        && rows[i].1@.map_values(|s: String| s@) == room_ids@.map_values(|s: String| s@)
                        && forall|k: int| 0 <= k < rows.len() && k != i ==> rows[k] == old(self).bookings_view()[k],
                    None => rows.len() == old(self).bookings_view().len() + 1 && rows.last().0@ == meeting_id@
                        && rows.last().1@.map_values(|s: String| s@) == room_ids@.map_values(|s: String| s@)
                        && rows.drop_last() == old(self).bookings_view(),
                }
            }),
    {
        let mut ids: Vec<String> = Vec::new();
        let mut j: usize = 0;
        while j < room_ids.len()
            invariant
                j <= room_ids@.len(),
                ids@.len() == j,
                forall|k: int| 0 <= k < j ==> (#[trigger] ids@[k])@ == room_ids@[k]@,
            decreases room_ids@.len() - j,
        {
            ids.push(room_ids[j].clone());
            j = j + 1;
        }
        assert(ids@.map_values(|s: String| s@) =~= room_ids@.map_values(|s: String| s@));
        let key = String::from_str(meeting_id);
        let ghost before = self.booked_rooms@;
        match find_key(&self.booked_rooms, meeting_id) {
            Some(i) => {
                self.booked_rooms.set(i, (key, ids));
                proof {
                    assert forall|a: int, b: int|
                        0 <= a < self.booked_rooms@.len() && 0 <= b < self.booked_rooms@.len() && a != b implies (#[trigger] self.booked_rooms@[a]).0@
                        != (#[trigger] self.booked_rooms@[b]).0@ by {
                        if a != i {
                            assert(self.booked_rooms@[a] == before[a]);
                        }
                        if b != i {
                            assert(self.booked_rooms@[b] == before[b]);
                        }
                    }
                }
            },
            None => {
                self.booked_rooms.push((key, ids));
                proof {
                    assert(self.booked_rooms@.drop_last() =~= before);
                    assert forall|a: int, b: int|
                        0 <= a < self.booked_rooms@.len() && 0 <= b < self.booked_rooms@.len() && a != b implies (#[trigger] self.booked_rooms@[a]).0@
                        != (#[trigger] self.booked_rooms@[b]).0@ by {
                        if a < before.len() {
                            assert(self.booked_rooms@[a] == before[a]);
                        }
                        if b < before.len() {
                            assert(self.booked_rooms@[b] == before[b]);
                        }
                    }
                }
            },
        }
        true
    }

    /// Drops the booking of a meeting; says whether there was one.
    pub fn release_room(&mut self, meeting_id: &str) -> (r: bool)
        requires
            old(self).wf(),
        ensures
            final(self).wf(),
            final(self).rooms_view() == old(self).rooms_view(),
            final(self).meetings_view() == old(self).meetings_view(),
            match key_index(old(self).bookings_view(), meeting_id@) {
                Some(i) => r && final(self).bookings_view() == old(self).bookings_view().remove(i),
                None => !r && final(self).bookings_view() == old(self).bookings_view(),
            },
    {
        match find_key(&self.booked_rooms, meeting_id) {
            Some(i) => {
                let ghost before = self.booked_rooms@;
                self.booked_rooms.remove(i);
                proof {
                    assert forall|a: int, b: int|
                        0 <= a < self.booked_rooms@.len() && 0 <= b < self.booked_rooms@.len() && a != b implies (#[trigger] self.booked_rooms@[a]).0@
                        != (#[trigger] self.booked_rooms@[b]).0@ by {
                        let a2 = if a < i { a } else { a + 1 };
                        let b2 = if b < i { b } else { b + 1 };
                        assert(self.booked_rooms@[a] == before[a2]);
                        assert(self.booked_rooms@[b] == before[b2]);
                    }
                }
                true
            },
            None => false,
        }
    }

    /// One page of rooms, pages counted from 1, and the number of rooms.
    pub fn list_rooms(&self, page: usize, page_size: usize) -> (r: (Vec<MeetingRoomItem>, usize))
        requires
            page >= 1,
            (page - 1) * page_size + page_size <= usize::MAX,
        ensures
            r.1 == self.rooms_view().len(),
            ({
                let start = (page - 1) * page_size;
                let end = if start + page_size < self.rooms_view().len() {
                    start + page_size
                } else {
                    self.rooms_view().len() as int
                };
                if start < self.rooms_view().len() {
                    r.0@ == self.rooms_view().subrange(start, end)
                } else {
                    r.0@.len() == 0
                }
            }),
    {
        let total = self.rooms.len();
        let start = (page - 1) * page_size;
        let end = if start + page_size < total {
            start + page_size
        } else {
            total
        };
        let mut out: Vec<MeetingRoomItem> = Vec::new();
        if start < total {
            let mut i: usize = start;
            while i < end
                invariant
                    start <= i <= end,
                    end <= total,
                    total == self.rooms@.len(),
                    out@ == self.rooms@.subrange(start as int, i as int),
                decreases end - i,
            {
                out.push(self.rooms[i].duplicate());
                assert(self.rooms@.subrange(start as int, i as int + 1) =~= self.rooms@.subrange(start as int, i as int).push(self.rooms@[i as int]));
                i = i + 1;
            }
        }
        (out, total)
    }
}

} // verus!
