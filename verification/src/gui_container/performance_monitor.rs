//! Running averages of frame times, for a performance monitor.

use vstd::prelude::*;

verus! {

/// Number of times that one average is taken over.
pub const TIME_SAMPLES: usize = 60;

/// Number of averages that are kept.
pub const AVERAGE_SAMPLES: usize = 10;

/// The times of the last `TIME_SAMPLES` frames and the last `AVERAGE_SAMPLES` averages
/// over them. Times are whole microseconds.
pub struct AverageTimer {
    pub average_times: [u32; 10],
    end_index: usize,
    time_data: [u32; 60],
    data_index: usize,
    most_recent: usize,
}

/// Mathematical value of an [`AverageTimer`].
pub struct AverageTimerView {
    /// The averages, in a ring.
    pub average_times: Seq<u32>,
    /// Where in the ring the next average goes: the place of the oldest one.
    pub end_index: int,
    /// The times, in a ring.
    pub time_data: Seq<u32>,
    /// Where in the ring the last time went.
    pub data_index: int,
    /// Where in the ring the newest average is.
    pub most_recent: int,
}

/// Sum of the first `count` times.
pub open spec fn sum_of(times: Seq<u32>, count: int) -> int
    decreases count,
{
    if count <= 0 {
        0
    } else {
        sum_of(times, count - 1) + times[count - 1]
    }
}

impl AverageTimerView {
    pub open spec fn wf(self) -> bool {
        &&& self.average_times.len() == AVERAGE_SAMPLES
        &&& self.time_data.len() == TIME_SAMPLES
        &&& 0 <= self.end_index < AVERAGE_SAMPLES
        &&& 0 <= self.data_index < TIME_SAMPLES
        &&& 0 <= self.most_recent < AVERAGE_SAMPLES
    }

    /// The average of the times, rounded down.
    pub open spec fn average(self) -> int {
        sum_of(self.time_data, TIME_SAMPLES as int) / (TIME_SAMPLES as int)
    }

    /// The timer after the frame that took `time`: the time takes the place of the oldest
    /// one, and when the ring of times has come round, their average takes the place of
    /// the oldest average.
    pub open spec fn update_frame_data(self, time: u32) -> AverageTimerView {
        let data_index = (self.data_index + 1) % (TIME_SAMPLES as int);
        let timed = AverageTimerView {
            time_data: self.time_data.update(data_index, time),
            data_index,
            ..self
        };
        if data_index == TIME_SAMPLES - 1 {
            AverageTimerView {
                average_times: self.average_times.update(self.end_index, timed.average() as u32),
                most_recent: self.end_index,
                end_index: (self.end_index + 1) % (AVERAGE_SAMPLES as int),
                ..timed
            }
        } else {
            timed
        }
    }

    /// The averages from the oldest to the newest.
    pub open spec fn in_order(self) -> Seq<u32> {
        Seq::new(
            AVERAGE_SAMPLES as nat,
            |i: int| self.average_times[(self.end_index + i) % (AVERAGE_SAMPLES as int)],
        )
    }
}

impl View for AverageTimer {
    type V = AverageTimerView;

    closed spec fn view(&self) -> AverageTimerView {
        AverageTimerView {
            average_times: self.average_times@,
            end_index: self.end_index as int,
            time_data: self.time_data@,
            data_index: self.data_index as int,
            most_recent: self.most_recent as int,
        }
    }
}

impl AverageTimer {
    #[verifier::type_invariant]
    spec fn in_range(&self) -> bool {
        self@.wf()
    }

    pub fn new() -> (timer: AverageTimer)
        ensures
            timer@.wf(),
            timer@.average_times == Seq::new(AVERAGE_SAMPLES as nat, |i: int| 0u32),
            timer@.time_data == Seq::new(TIME_SAMPLES as nat, |i: int| 0u32),
            timer@.end_index == 0,
            timer@.data_index == 0,
            timer@.most_recent == 0,
    {
        let timer = AverageTimer {
            end_index: 0,
            most_recent: 0,
            average_times: [0;10],
            time_data: [0;60],
            data_index: 0,
        };
        assert(timer.average_times@ =~= Seq::new(AVERAGE_SAMPLES as nat, |i: int| 0u32));
        assert(timer.time_data@ =~= Seq::new(TIME_SAMPLES as nat, |i: int| 0u32));
        timer
    }

    fn compute_average(&self) -> (average: u32)
        requires
            self@.wf(),
        ensures
            average == self@.average(),
    {
        let mut sum: u64 = 0;
        let mut i: usize = 0;
        while i < 60
            invariant
                i <= 60,
                self@.wf(),
                sum == sum_of(self@.time_data, i as int),
                sum <= i * u32::MAX,
            decreases 60 - i,
        {
            sum = sum + self.time_data[i] as u64;
            i += 1;
        }
        (sum / 60) as u32
    }

    /// The newest average.
    pub fn get_most_recent(&self) -> (average: u32)
        ensures
            self@.wf(),
            average == self@.average_times[self@.most_recent],
    {
        proof {
            use_type_invariant(self);
        }
        self.average_times[self.most_recent]
    }

    /// Notes the time that a frame took.
    pub fn update_frame_data(&mut self, time: u32)
        ensures
            old(self)@.wf(),
            final(self)@ == old(self)@.update_frame_data(time),
            final(self)@.wf(),
    {
        proof {
            use_type_invariant(&*self);
        }
        self.data_index = (self.data_index + 1) % 60;
        self.time_data[self.data_index] = time;
        if self.data_index == 59 {
            let average = self.compute_average();
            self.average_times[self.end_index] = average;
            self.most_recent = self.end_index;
            self.end_index = (self.end_index + 1) % 10;
        }
    }

    /// The averages from the oldest to the newest.
    pub fn get_average_times(&self) -> (times: [u32; 10])
        ensures
            self@.wf(),
            times@ == self@.in_order(),
    {
        proof {
            use_type_invariant(self);
        }
        let mut times: [u32; 10] = [0;10];
        let mut i: usize = 0;
        while i < 10
            invariant
                i <= 10,
                self@.wf(),
                forall|k: int|
                    0 <= k < i ==> times@[k] == self@.average_times[(self@.end_index + k) % 10],
            decreases 10 - i,
        {
            let index: usize = (self.end_index + i) % 10;
            times[i] = self.average_times[index];
            i += 1;
        }
        assert(times@ =~= self@.in_order());
        times
    }
}

} // verus!
