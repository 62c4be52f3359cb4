use eos::zoneinfo::TimeZone as ZoneInfo;
use eos::{Date, DateTime, Interval, Time, TimeZone, UtcOffset};

fn d(year: i16, month: u8, day: u8) -> Date {
    Date::new(year, month, day).unwrap()
}

fn t(hour: u8, minute: u8, second: u8) -> Time {
    Time::new(hour, minute, second).unwrap()
}

fn off(seconds: i32) -> UtcOffset {
    UtcOffset::from_seconds(seconds).unwrap()
}

fn dt(year: i16, month: u8, day: u8, hour: u8, minute: u8, offset: i32) -> DateTime {
    DateTime::from_components(d(year, month, day), t(hour, minute, 0), off(offset))
}

/// TZif data of the zones the tests load.
const UTC: [u8; 114] = [
    84, 90, 105, 102, 50, 0, 0, 0, 0, 0, 0, 0, 0, 0, 0, 0, 0, 0, 0, 0, 0, 0, 0, 0, 0, 0, 0, 0, 0, 0,
    0, 0, 0, 0, 0, 0, 0, 0, 0, 1, 0, 0, 0, 4, 0, 0, 0, 0, 0, 0, 85, 84, 67, 0, 84, 90, 105, 102, 50,
    0, 0, 0, 0, 0, 0, 0, 0, 0, 0, 0, 0, 0, 0, 0, 0, 0, 0, 0, 0, 0, 0, 0, 0, 0, 0, 0, 0, 0, 0, 0, 0,
    0, 0, 1, 0, 0, 0, 4, 0, 0, 0, 0, 0, 0, 85, 84, 67, 0, 10, 85, 84, 67, 48, 10
];

const AFRICA_ABIDJAN: [u8; 148] = [
    84, 90, 105, 102, 50, 0, 0, 0, 0, 0, 0, 0, 0, 0, 0, 0, 0, 0, 0, 0, 0, 0, 0, 0, 0, 0, 0, 0, 0, 0,
    0, 0, 0, 0, 0, 1, 0, 0, 0, 2, 0, 0, 0, 8, 146, 230, 146, 72, 1, 255, 255, 252, 56, 0, 0, 0, 0,
    0, 0, 0, 4, 76, 77, 84, 0, 71, 77, 84, 0, 84, 90, 105, 102, 50, 0, 0, 0, 0, 0, 0, 0, 0, 0, 0, 0,
    0, 0, 0, 0, 0, 0, 0, 0, 0, 0, 0, 0, 0, 0, 0, 0, 0, 0, 0, 1, 0, 0, 0, 2, 0, 0, 0, 8, 255, 255,
    255, 255, 146, 230, 146, 72, 1, 255, 255, 252, 56, 0, 0, 0, 0, 0, 0, 0, 4, 76, 77, 84, 0, 71,
    77, 84, 0, 10, 71, 77, 84, 48, 10
];

const AFRICA_CASABLANCA: [u8; 2429] = [
    84, 90, 105, 102, 50, 0, 0, 0, 0, 0, 0, 0, 0, 0, 0, 0, 0, 0, 0, 0, 0, 0, 0, 0, 0, 0, 0, 0, 0, 0,
    0, 0, 0, 0, 0, 95, 0, 0, 0, 5, 0, 0, 0, 12, 150, 81, 249, 156, 198, 255, 20, 128, 199, 88, 172,
    112, 199, 217, 237, 128, 210, 161, 50, 240, 219, 53, 164, 0, 219, 238, 39, 240, 251, 37, 114,
    64, 251, 194, 239, 112, 8, 107, 132, 128, 8, 198, 109, 240, 11, 232, 12, 0, 12, 97, 71, 240, 13,
    201, 63, 128, 14, 142, 242, 112, 15, 211, 81, 128, 16, 39, 163, 112, 26, 183, 166, 0, 30, 24,
    111, 240, 72, 65, 230, 128, 72, 187, 34, 112, 74, 35, 26, 0, 74, 141, 213, 112, 75, 220, 192,
    128, 76, 93, 229, 112, 77, 151, 184, 128, 78, 52, 140, 240, 79, 156, 160, 160, 80, 8, 187, 160,
    80, 49, 154, 32, 80, 103, 167, 160, 81, 124, 130, 160, 81, 216, 203, 160, 82, 5, 158, 160, 82,
    108, 115, 160, 83, 55, 122, 160, 83, 174, 33, 160, 83, 220, 70, 32, 84, 76, 85, 160, 85, 23, 92,
    160, 85, 124, 224, 32, 85, 171, 4, 160, 86, 44, 55, 160, 86, 247, 62, 160, 87, 83, 135, 160, 87,
    129, 172, 32, 88, 21, 84, 32, 88, 215, 32, 160, 89, 32, 244, 160, 89, 88, 83, 160, 89, 245, 54,
    32, 90, 183, 2, 160, 90, 247, 156, 32, 91, 37, 192, 160, 91, 213, 24, 32, 92, 206, 67, 160, 92,
    252, 104, 32, 94, 155, 176, 160, 94, 211, 15, 160, 96, 114, 88, 32, 96, 160, 124, 160, 98, 63,
    197, 32, 98, 119, 36, 32, 100, 22, 108, 160, 100, 68, 145, 32, 101, 237, 20, 32, 102, 27, 56,
    160, 103, 186, 129, 32, 103, 241, 224, 32, 105, 145, 40, 160, 105, 191, 77, 32, 107, 103, 208,
    32, 107, 149, 244, 160, 109, 53, 61, 32, 109, 108, 156, 32, 111, 11, 228, 160, 111, 58, 9, 32,
    112, 217, 81, 160, 113, 16, 176, 160, 114, 175, 249, 32, 114, 222, 29, 160, 116, 134, 160, 160,
    116, 180, 197, 32, 118, 84, 13, 160, 118, 139, 108, 160, 120, 42, 181, 32, 120, 88, 217, 160,
    121, 248, 34, 32, 122, 47, 129, 32, 123, 206, 201, 160, 124, 6, 40, 160, 125, 165, 113, 32, 125,
    211, 149, 160, 127, 114, 222, 32, 127, 170, 61, 32, 2, 1, 2, 1, 2, 1, 2, 1, 2, 1, 2, 1, 2, 1, 2,
    1, 2, 3, 2, 1, 2, 1, 2, 1, 2, 1, 2, 1, 2, 1, 2, 1, 2, 1, 2, 1, 2, 1, 2, 1, 2, 1, 2, 1, 2, 1, 2,
    1, 2, 1, 2, 1, 2, 1, 3, 4, 3, 4, 3, 4, 3, 4, 3, 4, 3, 4, 3, 4, 3, 4, 3, 4, 3, 4, 3, 4, 3, 4, 3,
    4, 3, 4, 3, 4, 3, 4, 3, 4, 3, 4, 3, 4, 3, 4, 3, 255, 255, 248, 228, 0, 0, 0, 0, 14, 16, 1, 4, 0,
    0, 0, 0, 0, 8, 0, 0, 14, 16, 0, 4, 0, 0, 0, 0, 1, 8, 76, 77, 84, 0, 43, 48, 49, 0, 43, 48, 48,
    0, 84, 90, 105, 102, 50, 0, 0, 0, 0, 0, 0, 0, 0, 0, 0, 0, 0, 0, 0, 0, 0, 0, 0, 0, 0, 0, 0, 0, 0,
    0, 0, 0, 0, 0, 0, 197, 0, 0, 0, 5, 0, 0, 0, 12, 255, 255, 255, 255, 150, 81, 249, 156, 255, 255,
    255, 255, 198, 255, 20, 128, 255, 255, 255, 255, 199, 88, 172, 112, 255, 255, 255, 255, 199,
    217, 237, 128, 255, 255, 255, 255, 210, 161, 50, 240, 255, 255, 255, 255, 219, 53, 164, 0, 255,
    255, 255, 255, 219, 238, 39, 240, 255, 255, 255, 255, 251, 37, 114, 64, 255, 255, 255, 255, 251,
    194, 239, 112, 0, 0, 0, 0, 8, 107, 132, 128, 0, 0, 0, 0, 8, 198, 109, 240, 0, 0, 0, 0, 11, 232,
    12, 0, 0, 0, 0, 0, 12, 97, 71, 240, 0, 0, 0, 0, 13, 201, 63, 128, 0, 0, 0, 0, 14, 142, 242, 112,
    0, 0, 0, 0, 15, 211, 81, 128, 0, 0, 0, 0, 16, 39, 163, 112, 0, 0, 0, 0, 26, 183, 166, 0, 0, 0,
    0, 0, 30, 24, 111, 240, 0, 0, 0, 0, 72, 65, 230, 128, 0, 0, 0, 0, 72, 187, 34, 112, 0, 0, 0, 0,
    74, 35, 26, 0, 0, 0, 0, 0, 74, 141, 213, 112, 0, 0, 0, 0, 75, 220, 192, 128, 0, 0, 0, 0, 76, 93,
    229, 112, 0, 0, 0, 0, 77, 151, 184, 128, 0, 0, 0, 0, 78, 52, 140, 240, 0, 0, 0, 0, 79, 156, 160,
    160, 0, 0, 0, 0, 80, 8, 187, 160, 0, 0, 0, 0, 80, 49, 154, 32, 0, 0, 0, 0, 80, 103, 167, 160, 0,
    0, 0, 0, 81, 124, 130, 160, 0, 0, 0, 0, 81, 216, 203, 160, 0, 0, 0, 0, 82, 5, 158, 160, 0, 0, 0,
    0, 82, 108, 115, 160, 0, 0, 0, 0, 83, 55, 122, 160, 0, 0, 0, 0, 83, 174, 33, 160, 0, 0, 0, 0,
    83, 220, 70, 32, 0, 0, 0, 0, 84, 76, 85, 160, 0, 0, 0, 0, 85, 23, 92, 160, 0, 0, 0, 0, 85, 124,
    224, 32, 0, 0, 0, 0, 85, 171, 4, 160, 0, 0, 0, 0, 86, 44, 55, 160, 0, 0, 0, 0, 86, 247, 62, 160,
    0, 0, 0, 0, 87, 83, 135, 160, 0, 0, 0, 0, 87, 129, 172, 32, 0, 0, 0, 0, 88, 21, 84, 32, 0, 0, 0,
    0, 88, 215, 32, 160, 0, 0, 0, 0, 89, 32, 244, 160, 0, 0, 0, 0, 89, 88, 83, 160, 0, 0, 0, 0, 89,
    245, 54, 32, 0, 0, 0, 0, 90, 183, 2, 160, 0, 0, 0, 0, 90, 247, 156, 32, 0, 0, 0, 0, 91, 37, 192,
    160, 0, 0, 0, 0, 91, 213, 24, 32, 0, 0, 0, 0, 92, 206, 67, 160, 0, 0, 0, 0, 92, 252, 104, 32, 0,
    0, 0, 0, 94, 155, 176, 160, 0, 0, 0, 0, 94, 211, 15, 160, 0, 0, 0, 0, 96, 114, 88, 32, 0, 0, 0,
    0, 96, 160, 124, 160, 0, 0, 0, 0, 98, 63, 197, 32, 0, 0, 0, 0, 98, 119, 36, 32, 0, 0, 0, 0, 100,
    22, 108, 160, 0, 0, 0, 0, 100, 68, 145, 32, 0, 0, 0, 0, 101, 237, 20, 32, 0, 0, 0, 0, 102, 27,
    56, 160, 0, 0, 0, 0, 103, 186, 129, 32, 0, 0, 0, 0, 103, 241, 224, 32, 0, 0, 0, 0, 105, 145, 40,
    160, 0, 0, 0, 0, 105, 191, 77, 32, 0, 0, 0, 0, 107, 103, 208, 32, 0, 0, 0, 0, 107, 149, 244,
    160, 0, 0, 0, 0, 109, 53, 61, 32, 0, 0, 0, 0, 109, 108, 156, 32, 0, 0, 0, 0, 111, 11, 228, 160,
    0, 0, 0, 0, 111, 58, 9, 32, 0, 0, 0, 0, 112, 217, 81, 160, 0, 0, 0, 0, 113, 16, 176, 160, 0, 0,
    0, 0, 114, 175, 249, 32, 0, 0, 0, 0, 114, 222, 29, 160, 0, 0, 0, 0, 116, 134, 160, 160, 0, 0, 0,
    0, 116, 180, 197, 32, 0, 0, 0, 0, 118, 84, 13, 160, 0, 0, 0, 0, 118, 139, 108, 160, 0, 0, 0, 0,
    120, 42, 181, 32, 0, 0, 0, 0, 120, 88, 217, 160, 0, 0, 0, 0, 121, 248, 34, 32, 0, 0, 0, 0, 122,
    47, 129, 32, 0, 0, 0, 0, 123, 206, 201, 160, 0, 0, 0, 0, 124, 6, 40, 160, 0, 0, 0, 0, 125, 165,
    113, 32, 0, 0, 0, 0, 125, 211, 149, 160, 0, 0, 0, 0, 127, 114, 222, 32, 0, 0, 0, 0, 127, 170,
    61, 32, 0, 0, 0, 0, 129, 73, 133, 160, 0, 0, 0, 0, 129, 119, 170, 32, 0, 0, 0, 0, 131, 32, 45,
    32, 0, 0, 0, 0, 131, 78, 81, 160, 0, 0, 0, 0, 132, 237, 154, 32, 0, 0, 0, 0, 133, 36, 249, 32,
    0, 0, 0, 0, 134, 196, 65, 160, 0, 0, 0, 0, 134, 242, 102, 32, 0, 0, 0, 0, 136, 145, 174, 160, 0,
    0, 0, 0, 136, 201, 13, 160, 0, 0, 0, 0, 138, 104, 86, 32, 0, 0, 0, 0, 138, 159, 181, 32, 0, 0,
    0, 0, 140, 62, 253, 160, 0, 0, 0, 0, 140, 109, 34, 32, 0, 0, 0, 0, 142, 12, 106, 160, 0, 0, 0,
    0, 142, 67, 201, 160, 0, 0, 0, 0, 143, 227, 18, 32, 0, 0, 0, 0, 144, 17, 54, 160, 0, 0, 0, 0,
    145, 185, 185, 160, 0, 0, 0, 0, 145, 231, 222, 32, 0, 0, 0, 0, 147, 135, 38, 160, 0, 0, 0, 0,
    147, 190, 133, 160, 0, 0, 0, 0, 149, 93, 206, 32, 0, 0, 0, 0, 149, 139, 242, 160, 0, 0, 0, 0,
    151, 43, 59, 32, 0, 0, 0, 0, 151, 98, 154, 32, 0, 0, 0, 0, 153, 1, 226, 160, 0, 0, 0, 0, 153,
    57, 65, 160, 0, 0, 0, 0, 154, 216, 138, 32, 0, 0, 0, 0, 155, 6, 174, 160, 0, 0, 0, 0, 156, 165,
    247, 32, 0, 0, 0, 0, 156, 221, 86, 32, 0, 0, 0, 0, 158, 124, 158, 160, 0, 0, 0, 0, 158, 170,
    195, 32, 0, 0, 0, 0, 160, 83, 70, 32, 0, 0, 0, 0, 160, 129, 106, 160, 0, 0, 0, 0, 162, 32, 179,
    32, 0, 0, 0, 0, 162, 88, 18, 32, 0, 0, 0, 0, 163, 247, 90, 160, 0, 0, 0, 0, 164, 37, 127, 32, 0,
    0, 0, 0, 165, 196, 199, 160, 0, 0, 0, 0, 165, 252, 38, 160, 0, 0, 0, 0, 167, 155, 111, 32, 0, 0,
    0, 0, 167, 210, 206, 32, 0, 0, 0, 0, 169, 114, 22, 160, 0, 0, 0, 0, 169, 160, 59, 32, 0, 0, 0,
    0, 171, 63, 131, 160, 0, 0, 0, 0, 171, 118, 226, 160, 0, 0, 0, 0, 173, 22, 43, 32, 0, 0, 0, 0,
    173, 68, 79, 160, 0, 0, 0, 0, 174, 236, 210, 160, 0, 0, 0, 0, 175, 26, 247, 32, 0, 0, 0, 0, 176,
    186, 63, 160, 0, 0, 0, 0, 176, 241, 158, 160, 0, 0, 0, 0, 178, 144, 231, 32, 0, 0, 0, 0, 178,
    191, 11, 160, 0, 0, 0, 0, 180, 94, 84, 32, 0, 0, 0, 0, 180, 149, 179, 32, 0, 0, 0, 0, 182, 52,
    251, 160, 0, 0, 0, 0, 182, 108, 90, 160, 0, 0, 0, 0, 184, 11, 163, 32, 0, 0, 0, 0, 184, 57, 199,
    160, 0, 0, 0, 0, 185, 217, 16, 32, 0, 0, 0, 0, 186, 16, 111, 32, 0, 0, 0, 0, 187, 175, 183, 160,
    0, 0, 0, 0, 187, 221, 220, 32, 0, 0, 0, 0, 189, 134, 95, 32, 0, 0, 0, 0, 189, 180, 131, 160, 0,
    0, 0, 0, 191, 83, 204, 32, 0, 0, 0, 0, 191, 139, 43, 32, 0, 0, 0, 0, 193, 42, 115, 160, 0, 0, 0,
    0, 193, 88, 152, 32, 0, 0, 0, 0, 194, 247, 224, 160, 0, 0, 0, 0, 195, 47, 63, 160, 0, 0, 0, 0,
    196, 206, 136, 32, 0, 0, 0, 0, 197, 5, 231, 32, 0, 0, 0, 0, 198, 165, 47, 160, 0, 0, 0, 0, 198,
    211, 84, 32, 0, 0, 0, 0, 200, 114, 156, 160, 0, 0, 0, 0, 200, 169, 251, 160, 0, 0, 0, 0, 202,
    73, 68, 32, 0, 0, 0, 0, 202, 119, 104, 160, 0, 0, 0, 0, 204, 31, 235, 160, 0, 0, 0, 0, 204, 78,
    16, 32, 0, 0, 0, 0, 205, 237, 88, 160, 0, 0, 0, 0, 206, 36, 183, 160, 0, 0, 0, 0, 207, 196, 0,
    32, 0, 0, 0, 0, 207, 242, 36, 160, 0, 0, 0, 0, 209, 145, 109, 32, 0, 0, 0, 0, 209, 200, 204, 32,
    0, 0, 0, 0, 211, 104, 20, 160, 0, 0, 0, 0, 211, 150, 57, 32, 0, 0, 0, 0, 213, 62, 188, 32, 0, 0,
    0, 0, 213, 108, 224, 160, 0, 0, 0, 0, 215, 12, 41, 32, 0, 0, 0, 0, 215, 67, 136, 32, 0, 0, 0, 0,
    216, 226, 208, 160, 0, 0, 0, 0, 217, 16, 245, 32, 0, 0, 0, 0, 218, 185, 120, 32, 0, 0, 0, 0,
    218, 231, 156, 160, 0, 0, 0, 0, 220, 134, 229, 32, 0, 0, 0, 0, 220, 190, 68, 32, 2, 1, 2, 1, 2,
    1, 2, 1, 2, 1, 2, 1, 2, 1, 2, 1, 2, 3, 2, 1, 2, 1, 2, 1, 2, 1, 2, 1, 2, 1, 2, 1, 2, 1, 2, 1, 2,
    1, 2, 1, 2, 1, 2, 1, 2, 1, 2, 1, 2, 1, 2, 1, 2, 1, 3, 4, 3, 4, 3, 4, 3, 4, 3, 4, 3, 4, 3, 4, 3,
    4, 3, 4, 3, 4, 3, 4, 3, 4, 3, 4, 3, 4, 3, 4, 3, 4, 3, 4, 3, 4, 3, 4, 3, 4, 3, 4, 3, 4, 3, 4, 3,
    4, 3, 4, 3, 4, 3, 4, 3, 4, 3, 4, 3, 4, 3, 4, 3, 4, 3, 4, 3, 4, 3, 4, 3, 4, 3, 4, 3, 4, 3, 4, 3,
    4, 3, 4, 3, 4, 3, 4, 3, 4, 3, 4, 3, 4, 3, 4, 3, 4, 3, 4, 3, 4, 3, 4, 3, 4, 3, 4, 3, 4, 3, 4, 3,
    4, 3, 4, 3, 4, 3, 4, 3, 4, 3, 4, 3, 4, 3, 4, 3, 4, 3, 4, 3, 4, 3, 4, 3, 4, 3, 4, 3, 4, 3, 4, 3,
    255, 255, 248, 228, 0, 0, 0, 0, 14, 16, 1, 4, 0, 0, 0, 0, 0, 8, 0, 0, 14, 16, 0, 4, 0, 0, 0, 0,
    1, 8, 76, 77, 84, 0, 43, 48, 49, 0, 43, 48, 48, 0, 10, 60, 43, 48, 49, 62, 45, 49, 10
];

const AMERICA_LOS_ANGELES: [u8; 2852] = [
    84, 90, 105, 102, 50, 0, 0, 0, 0, 0, 0, 0, 0, 0, 0, 0, 0, 0, 0, 0, 0, 0, 0, 6, 0, 0, 0, 6, 0, 0,
    0, 0, 0, 0, 0, 186, 0, 0, 0, 6, 0, 0, 0, 20, 128, 0, 0, 0, 158, 166, 72, 160, 159, 187, 21, 144,
    160, 134, 42, 160, 161, 154, 247, 144, 203, 137, 26, 160, 210, 35, 244, 112, 210, 97, 38, 16,
    214, 254, 116, 92, 216, 128, 173, 144, 218, 254, 195, 144, 219, 192, 144, 16, 220, 222, 165,
    144, 221, 169, 172, 144, 222, 190, 135, 144, 223, 137, 142, 144, 224, 158, 105, 144, 225, 105,
    112, 144, 226, 126, 75, 144, 227, 73, 82, 144, 228, 94, 45, 144, 229, 41, 52, 144, 230, 71, 74,
    16, 231, 18, 81, 16, 232, 39, 44, 16, 232, 242, 51, 16, 234, 7, 14, 16, 234, 210, 21, 16, 235,
    230, 240, 16, 236, 177, 247, 16, 237, 198, 210, 16, 238, 145, 217, 16, 239, 175, 238, 144, 240,
    113, 187, 16, 241, 143, 208, 144, 242, 127, 193, 144, 243, 111, 178, 144, 244, 95, 163, 144,
    245, 79, 148, 144, 246, 63, 133, 144, 247, 47, 118, 144, 248, 40, 162, 16, 249, 15, 88, 144,
    250, 8, 132, 16, 250, 248, 131, 32, 251, 232, 102, 16, 252, 216, 101, 32, 253, 200, 72, 16, 254,
    184, 71, 32, 255, 168, 42, 16, 0, 152, 41, 32, 1, 136, 12, 16, 2, 120, 11, 32, 3, 113, 40, 144,
    4, 97, 39, 160, 5, 81, 10, 144, 6, 65, 9, 160, 7, 48, 236, 144, 7, 141, 67, 160, 9, 16, 206,
    144, 9, 173, 191, 32, 10, 240, 176, 144, 11, 224, 175, 160, 12, 217, 205, 16, 13, 192, 145, 160,
    14, 185, 175, 16, 15, 169, 174, 32, 16, 153, 145, 16, 17, 137, 144, 32, 18, 121, 115, 16, 19,
    105, 114, 32, 20, 89, 85, 16, 21, 73, 84, 32, 22, 57, 55, 16, 23, 41, 54, 32, 24, 34, 83, 144,
    25, 9, 24, 32, 26, 2, 53, 144, 26, 242, 52, 160, 27, 226, 23, 144, 28, 210, 22, 160, 29, 193,
    249, 144, 30, 177, 248, 160, 31, 161, 219, 144, 32, 118, 43, 32, 33, 129, 189, 144, 34, 86, 13,
    32, 35, 106, 218, 16, 36, 53, 239, 32, 37, 74, 188, 16, 38, 21, 209, 32, 39, 42, 158, 16, 39,
    254, 237, 160, 41, 10, 128, 16, 41, 222, 207, 160, 42, 234, 98, 16, 43, 190, 177, 160, 44, 211,
    126, 144, 45, 158, 147, 160, 46, 179, 96, 144, 47, 126, 117, 160, 48, 147, 66, 144, 49, 103,
    146, 32, 50, 115, 36, 144, 51, 71, 116, 32, 52, 83, 6, 144, 53, 39, 86, 32, 54, 50, 232, 144,
    55, 7, 56, 32, 56, 28, 5, 16, 56, 231, 26, 32, 57, 251, 231, 16, 58, 198, 252, 32, 59, 219, 201,
    16, 60, 176, 24, 160, 61, 187, 171, 16, 62, 143, 250, 160, 63, 155, 141, 16, 64, 111, 220, 160,
    65, 132, 169, 144, 66, 79, 190, 160, 67, 100, 139, 144, 68, 47, 160, 160, 69, 68, 109, 144, 69,
    243, 211, 32, 71, 45, 138, 16, 71, 211, 181, 32, 73, 13, 108, 16, 73, 179, 151, 32, 74, 237, 78,
    16, 75, 156, 179, 160, 76, 214, 106, 144, 77, 124, 149, 160, 78, 182, 76, 144, 79, 92, 119, 160,
    80, 150, 46, 144, 81, 60, 89, 160, 82, 118, 16, 144, 83, 28, 59, 160, 84, 85, 242, 144, 84, 252,
    29, 160, 86, 53, 212, 144, 86, 229, 58, 32, 88, 30, 241, 16, 88, 197, 28, 32, 89, 254, 211, 16,
    90, 164, 254, 32, 91, 222, 181, 16, 92, 132, 224, 32, 93, 190, 151, 16, 94, 100, 194, 32, 95,
    158, 121, 16, 96, 77, 222, 160, 97, 135, 149, 144, 98, 45, 192, 160, 99, 103, 119, 144, 100, 13,
    162, 160, 101, 71, 89, 144, 101, 237, 132, 160, 103, 39, 59, 144, 103, 205, 102, 160, 105, 7,
    29, 144, 105, 173, 72, 160, 106, 230, 255, 144, 107, 150, 101, 32, 108, 208, 28, 16, 109, 118,
    71, 32, 110, 175, 254, 16, 111, 86, 41, 32, 112, 143, 224, 16, 113, 54, 11, 32, 114, 111, 194,
    16, 115, 21, 237, 32, 116, 79, 164, 16, 116, 255, 9, 160, 118, 56, 192, 144, 118, 222, 235, 160,
    120, 24, 162, 144, 120, 190, 205, 160, 121, 248, 132, 144, 122, 158, 175, 160, 123, 216, 102,
    144, 124, 126, 145, 160, 125, 184, 72, 144, 126, 94, 115, 160, 127, 152, 42, 144, 5, 1, 2, 1, 2,
    3, 4, 2, 1, 2, 1, 2, 1, 2, 1, 2, 1, 2, 1, 2, 1, 2, 1, 2, 1, 2, 1, 2, 1, 2, 1, 2, 1, 2, 1, 2, 1,
    2, 1, 2, 1, 2, 1, 2, 1, 2, 1, 2, 1, 2, 1, 2, 1, 2, 1, 2, 1, 2, 1, 2, 1, 2, 1, 2, 1, 2, 1, 2, 1,
    2, 1, 2, 1, 2, 1, 2, 1, 2, 1, 2, 1, 2, 1, 2, 1, 2, 1, 2, 1, 2, 1, 2, 1, 2, 1, 2, 1, 2, 1, 2, 1,
    2, 1, 2, 1, 2, 1, 2, 1, 2, 1, 2, 1, 2, 1, 2, 1, 2, 1, 2, 1, 2, 1, 2, 1, 2, 1, 2, 1, 2, 1, 2, 1,
    2, 1, 2, 1, 2, 1, 2, 1, 2, 1, 2, 1, 2, 1, 2, 1, 2, 1, 2, 1, 2, 1, 2, 1, 2, 1, 2, 1, 2, 1, 2, 1,
    2, 1, 2, 1, 2, 1, 2, 1, 2, 1, 2, 1, 2, 1, 2, 1, 2, 1, 2, 1, 2, 255, 255, 145, 38, 0, 0, 255,
    255, 157, 144, 1, 4, 255, 255, 143, 128, 0, 8, 255, 255, 157, 144, 1, 12, 255, 255, 157, 144, 1,
    16, 255, 255, 143, 128, 0, 8, 76, 77, 84, 0, 80, 68, 84, 0, 80, 83, 84, 0, 80, 87, 84, 0, 80,
    80, 84, 0, 0, 0, 0, 0, 1, 1, 0, 0, 0, 0, 1, 1, 84, 90, 105, 102, 50, 0, 0, 0, 0, 0, 0, 0, 0, 0,
    0, 0, 0, 0, 0, 0, 0, 0, 0, 6, 0, 0, 0, 6, 0, 0, 0, 0, 0, 0, 0, 186, 0, 0, 0, 6, 0, 0, 0, 20,
    255, 255, 255, 255, 94, 4, 26, 192, 255, 255, 255, 255, 158, 166, 72, 160, 255, 255, 255, 255,
    159, 187, 21, 144, 255, 255, 255, 255, 160, 134, 42, 160, 255, 255, 255, 255, 161, 154, 247,
    144, 255, 255, 255, 255, 203, 137, 26, 160, 255, 255, 255, 255, 210, 35, 244, 112, 255, 255,
    255, 255, 210, 97, 38, 16, 255, 255, 255, 255, 214, 254, 116, 92, 255, 255, 255, 255, 216, 128,
    173, 144, 255, 255, 255, 255, 218, 254, 195, 144, 255, 255, 255, 255, 219, 192, 144, 16, 255,
    255, 255, 255, 220, 222, 165, 144, 255, 255, 255, 255, 221, 169, 172, 144, 255, 255, 255, 255,
    222, 190, 135, 144, 255, 255, 255, 255, 223, 137, 142, 144, 255, 255, 255, 255, 224, 158, 105,
    144, 255, 255, 255, 255, 225, 105, 112, 144, 255, 255, 255, 255, 226, 126, 75, 144, 255, 255,
    255, 255, 227, 73, 82, 144, 255, 255, 255, 255, 228, 94, 45, 144, 255, 255, 255, 255, 229, 41,
    52, 144, 255, 255, 255, 255, 230, 71, 74, 16, 255, 255, 255, 255, 231, 18, 81, 16, 255, 255,
    255, 255, 232, 39, 44, 16, 255, 255, 255, 255, 232, 242, 51, 16, 255, 255, 255, 255, 234, 7, 14,
    16, 255, 255, 255, 255, 234, 210, 21, 16, 255, 255, 255, 255, 235, 230, 240, 16, 255, 255, 255,
    255, 236, 177, 247, 16, 255, 255, 255, 255, 237, 198, 210, 16, 255, 255, 255, 255, 238, 145,
    217, 16, 255, 255, 255, 255, 239, 175, 238, 144, 255, 255, 255, 255, 240, 113, 187, 16, 255,
    255, 255, 255, 241, 143, 208, 144, 255, 255, 255, 255, 242, 127, 193, 144, 255, 255, 255, 255,
    243, 111, 178, 144, 255, 255, 255, 255, 244, 95, 163, 144, 255, 255, 255, 255, 245, 79, 148,
    144, 255, 255, 255, 255, 246, 63, 133, 144, 255, 255, 255, 255, 247, 47, 118, 144, 255, 255,
    255, 255, 248, 40, 162, 16, 255, 255, 255, 255, 249, 15, 88, 144, 255, 255, 255, 255, 250, 8,
    132, 16, 255, 255, 255, 255, 250, 248, 131, 32, 255, 255, 255, 255, 251, 232, 102, 16, 255, 255,
    255, 255, 252, 216, 101, 32, 255, 255, 255, 255, 253, 200, 72, 16, 255, 255, 255, 255, 254, 184,
    71, 32, 255, 255, 255, 255, 255, 168, 42, 16, 0, 0, 0, 0, 0, 152, 41, 32, 0, 0, 0, 0, 1, 136,
    12, 16, 0, 0, 0, 0, 2, 120, 11, 32, 0, 0, 0, 0, 3, 113, 40, 144, 0, 0, 0, 0, 4, 97, 39, 160, 0,
    0, 0, 0, 5, 81, 10, 144, 0, 0, 0, 0, 6, 65, 9, 160, 0, 0, 0, 0, 7, 48, 236, 144, 0, 0, 0, 0, 7,
    141, 67, 160, 0, 0, 0, 0, 9, 16, 206, 144, 0, 0, 0, 0, 9, 173, 191, 32, 0, 0, 0, 0, 10, 240,
    176, 144, 0, 0, 0, 0, 11, 224, 175, 160, 0, 0, 0, 0, 12, 217, 205, 16, 0, 0, 0, 0, 13, 192, 145,
    160, 0, 0, 0, 0, 14, 185, 175, 16, 0, 0, 0, 0, 15, 169, 174, 32, 0, 0, 0, 0, 16, 153, 145, 16,
    0, 0, 0, 0, 17, 137, 144, 32, 0, 0, 0, 0, 18, 121, 115, 16, 0, 0, 0, 0, 19, 105, 114, 32, 0, 0,
    0, 0, 20, 89, 85, 16, 0, 0, 0, 0, 21, 73, 84, 32, 0, 0, 0, 0, 22, 57, 55, 16, 0, 0, 0, 0, 23,
    41, 54, 32, 0, 0, 0, 0, 24, 34, 83, 144, 0, 0, 0, 0, 25, 9, 24, 32, 0, 0, 0, 0, 26, 2, 53, 144,
    0, 0, 0, 0, 26, 242, 52, 160, 0, 0, 0, 0, 27, 226, 23, 144, 0, 0, 0, 0, 28, 210, 22, 160, 0, 0,
    0, 0, 29, 193, 249, 144, 0, 0, 0, 0, 30, 177, 248, 160, 0, 0, 0, 0, 31, 161, 219, 144, 0, 0, 0,
    0, 32, 118, 43, 32, 0, 0, 0, 0, 33, 129, 189, 144, 0, 0, 0, 0, 34, 86, 13, 32, 0, 0, 0, 0, 35,
    106, 218, 16, 0, 0, 0, 0, 36, 53, 239, 32, 0, 0, 0, 0, 37, 74, 188, 16, 0, 0, 0, 0, 38, 21, 209,
    32, 0, 0, 0, 0, 39, 42, 158, 16, 0, 0, 0, 0, 39, 254, 237, 160, 0, 0, 0, 0, 41, 10, 128, 16, 0,
    0, 0, 0, 41, 222, 207, 160, 0, 0, 0, 0, 42, 234, 98, 16, 0, 0, 0, 0, 43, 190, 177, 160, 0, 0, 0,
    0, 44, 211, 126, 144, 0, 0, 0, 0, 45, 158, 147, 160, 0, 0, 0, 0, 46, 179, 96, 144, 0, 0, 0, 0,
    47, 126, 117, 160, 0, 0, 0, 0, 48, 147, 66, 144, 0, 0, 0, 0, 49, 103, 146, 32, 0, 0, 0, 0, 50,
    115, 36, 144, 0, 0, 0, 0, 51, 71, 116, 32, 0, 0, 0, 0, 52, 83, 6, 144, 0, 0, 0, 0, 53, 39, 86,
    32, 0, 0, 0, 0, 54, 50, 232, 144, 0, 0, 0, 0, 55, 7, 56, 32, 0, 0, 0, 0, 56, 28, 5, 16, 0, 0, 0,
    0, 56, 231, 26, 32, 0, 0, 0, 0, 57, 251, 231, 16, 0, 0, 0, 0, 58, 198, 252, 32, 0, 0, 0, 0, 59,
    219, 201, 16, 0, 0, 0, 0, 60, 176, 24, 160, 0, 0, 0, 0, 61, 187, 171, 16, 0, 0, 0, 0, 62, 143,
    250, 160, 0, 0, 0, 0, 63, 155, 141, 16, 0, 0, 0, 0, 64, 111, 220, 160, 0, 0, 0, 0, 65, 132, 169,
    144, 0, 0, 0, 0, 66, 79, 190, 160, 0, 0, 0, 0, 67, 100, 139, 144, 0, 0, 0, 0, 68, 47, 160, 160,
    0, 0, 0, 0, 69, 68, 109, 144, 0, 0, 0, 0, 69, 243, 211, 32, 0, 0, 0, 0, 71, 45, 138, 16, 0, 0,
    0, 0, 71, 211, 181, 32, 0, 0, 0, 0, 73, 13, 108, 16, 0, 0, 0, 0, 73, 179, 151, 32, 0, 0, 0, 0,
    74, 237, 78, 16, 0, 0, 0, 0, 75, 156, 179, 160, 0, 0, 0, 0, 76, 214, 106, 144, 0, 0, 0, 0, 77,
    124, 149, 160, 0, 0, 0, 0, 78, 182, 76, 144, 0, 0, 0, 0, 79, 92, 119, 160, 0, 0, 0, 0, 80, 150,
    46, 144, 0, 0, 0, 0, 81, 60, 89, 160, 0, 0, 0, 0, 82, 118, 16, 144, 0, 0, 0, 0, 83, 28, 59, 160,
    0, 0, 0, 0, 84, 85, 242, 144, 0, 0, 0, 0, 84, 252, 29, 160, 0, 0, 0, 0, 86, 53, 212, 144, 0, 0,
    0, 0, 86, 229, 58, 32, 0, 0, 0, 0, 88, 30, 241, 16, 0, 0, 0, 0, 88, 197, 28, 32, 0, 0, 0, 0, 89,
    254, 211, 16, 0, 0, 0, 0, 90, 164, 254, 32, 0, 0, 0, 0, 91, 222, 181, 16, 0, 0, 0, 0, 92, 132,
    224, 32, 0, 0, 0, 0, 93, 190, 151, 16, 0, 0, 0, 0, 94, 100, 194, 32, 0, 0, 0, 0, 95, 158, 121,
    16, 0, 0, 0, 0, 96, 77, 222, 160, 0, 0, 0, 0, 97, 135, 149, 144, 0, 0, 0, 0, 98, 45, 192, 160,
    0, 0, 0, 0, 99, 103, 119, 144, 0, 0, 0, 0, 100, 13, 162, 160, 0, 0, 0, 0, 101, 71, 89, 144, 0,
    0, 0, 0, 101, 237, 132, 160, 0, 0, 0, 0, 103, 39, 59, 144, 0, 0, 0, 0, 103, 205, 102, 160, 0, 0,
    0, 0, 105, 7, 29, 144, 0, 0, 0, 0, 105, 173, 72, 160, 0, 0, 0, 0, 106, 230, 255, 144, 0, 0, 0,
    0, 107, 150, 101, 32, 0, 0, 0, 0, 108, 208, 28, 16, 0, 0, 0, 0, 109, 118, 71, 32, 0, 0, 0, 0,
    110, 175, 254, 16, 0, 0, 0, 0, 111, 86, 41, 32, 0, 0, 0, 0, 112, 143, 224, 16, 0, 0, 0, 0, 113,
    54, 11, 32, 0, 0, 0, 0, 114, 111, 194, 16, 0, 0, 0, 0, 115, 21, 237, 32, 0, 0, 0, 0, 116, 79,
    164, 16, 0, 0, 0, 0, 116, 255, 9, 160, 0, 0, 0, 0, 118, 56, 192, 144, 0, 0, 0, 0, 118, 222, 235,
    160, 0, 0, 0, 0, 120, 24, 162, 144, 0, 0, 0, 0, 120, 190, 205, 160, 0, 0, 0, 0, 121, 248, 132,
    144, 0, 0, 0, 0, 122, 158, 175, 160, 0, 0, 0, 0, 123, 216, 102, 144, 0, 0, 0, 0, 124, 126, 145,
    160, 0, 0, 0, 0, 125, 184, 72, 144, 0, 0, 0, 0, 126, 94, 115, 160, 0, 0, 0, 0, 127, 152, 42,
    144, 5, 1, 2, 1, 2, 3, 4, 2, 1, 2, 1, 2, 1, 2, 1, 2, 1, 2, 1, 2, 1, 2, 1, 2, 1, 2, 1, 2, 1, 2,
    1, 2, 1, 2, 1, 2, 1, 2, 1, 2, 1, 2, 1, 2, 1, 2, 1, 2, 1, 2, 1, 2, 1, 2, 1, 2, 1, 2, 1, 2, 1, 2,
    1, 2, 1, 2, 1, 2, 1, 2, 1, 2, 1, 2, 1, 2, 1, 2, 1, 2, 1, 2, 1, 2, 1, 2, 1, 2, 1, 2, 1, 2, 1, 2,
    1, 2, 1, 2, 1, 2, 1, 2, 1, 2, 1, 2, 1, 2, 1, 2, 1, 2, 1, 2, 1, 2, 1, 2, 1, 2, 1, 2, 1, 2, 1, 2,
    1, 2, 1, 2, 1, 2, 1, 2, 1, 2, 1, 2, 1, 2, 1, 2, 1, 2, 1, 2, 1, 2, 1, 2, 1, 2, 1, 2, 1, 2, 1, 2,
    1, 2, 1, 2, 1, 2, 1, 2, 1, 2, 1, 2, 1, 2, 1, 2, 1, 2, 1, 2, 1, 2, 1, 2, 1, 2, 1, 2, 255, 255,
    145, 38, 0, 0, 255, 255, 157, 144, 1, 4, 255, 255, 143, 128, 0, 8, 255, 255, 157, 144, 1, 12,
    255, 255, 157, 144, 1, 16, 255, 255, 143, 128, 0, 8, 76, 77, 84, 0, 80, 68, 84, 0, 80, 83, 84,
    0, 80, 87, 84, 0, 80, 80, 84, 0, 0, 0, 0, 0, 1, 1, 0, 0, 0, 0, 1, 1, 10, 80, 83, 84, 56, 80, 68,
    84, 44, 77, 51, 46, 50, 46, 48, 44, 77, 49, 49, 46, 49, 46, 48, 10
];

const AMERICA_SANTIAGO: [u8; 2529] = [
    84, 90, 105, 102, 51, 0, 0, 0, 0, 0, 0, 0, 0, 0, 0, 0, 0, 0, 0, 0, 0, 0, 0, 8, 0, 0, 0, 8, 0, 0,
    0, 0, 0, 0, 0, 160, 0, 0, 0, 8, 0, 0, 0, 20, 128, 0, 0, 0, 143, 48, 71, 69, 155, 92, 229, 80,
    159, 124, 226, 197, 161, 0, 113, 192, 176, 94, 119, 197, 177, 119, 61, 64, 178, 65, 0, 208, 179,
    88, 112, 192, 180, 34, 52, 80, 181, 57, 164, 64, 182, 3, 103, 208, 183, 26, 215, 192, 183, 228,
    155, 80, 184, 253, 92, 192, 185, 199, 32, 80, 204, 28, 110, 64, 204, 108, 231, 208, 211, 220,
    143, 192, 212, 23, 213, 48, 213, 51, 85, 192, 213, 118, 146, 64, 253, 209, 60, 64, 254, 146,
    250, 176, 255, 204, 205, 192, 0, 114, 220, 176, 1, 117, 80, 192, 2, 64, 73, 176, 3, 85, 50, 192,
    4, 32, 43, 176, 5, 62, 79, 64, 6, 0, 13, 176, 7, 11, 188, 64, 7, 223, 239, 176, 8, 254, 19, 64,
    9, 191, 209, 176, 10, 221, 245, 64, 11, 168, 238, 48, 12, 189, 215, 64, 13, 136, 208, 48, 14,
    157, 185, 64, 15, 104, 178, 48, 16, 134, 213, 192, 17, 72, 148, 48, 18, 102, 183, 192, 19, 40,
    118, 48, 20, 70, 153, 192, 21, 17, 146, 176, 22, 38, 123, 192, 22, 241, 116, 176, 24, 6, 93,
    192, 24, 209, 86, 176, 25, 230, 63, 192, 26, 177, 56, 176, 27, 207, 92, 64, 28, 145, 26, 176,
    29, 175, 62, 64, 30, 112, 252, 176, 31, 143, 32, 64, 32, 127, 3, 48, 33, 111, 2, 64, 34, 57,
    251, 48, 35, 78, 228, 64, 36, 25, 221, 48, 37, 56, 0, 192, 37, 249, 191, 48, 38, 242, 248, 192,
    39, 217, 161, 48, 40, 247, 196, 192, 41, 194, 189, 176, 42, 215, 166, 192, 43, 162, 159, 176,
    44, 183, 136, 192, 45, 130, 129, 176, 46, 151, 106, 192, 47, 98, 99, 176, 48, 128, 135, 64, 49,
    66, 69, 176, 50, 96, 105, 64, 51, 61, 215, 48, 52, 64, 75, 64, 53, 11, 68, 48, 54, 13, 184, 64,
    55, 6, 213, 176, 56, 0, 15, 64, 56, 203, 8, 48, 57, 233, 43, 192, 58, 170, 234, 48, 59, 201, 13,
    192, 60, 138, 204, 48, 61, 168, 239, 192, 62, 106, 174, 48, 63, 136, 209, 192, 64, 83, 202, 176,
    65, 104, 179, 192, 66, 51, 172, 176, 67, 72, 149, 192, 68, 19, 142, 176, 69, 49, 178, 64, 69,
    243, 112, 176, 71, 17, 148, 64, 71, 239, 2, 48, 72, 241, 118, 64, 73, 188, 111, 48, 74, 209, 88,
    64, 75, 184, 0, 176, 76, 177, 58, 64, 77, 198, 7, 48, 78, 80, 130, 192, 79, 156, 174, 176, 80,
    66, 217, 192, 81, 124, 144, 176, 82, 43, 246, 64, 83, 92, 114, 176, 84, 11, 216, 64, 87, 55,
    230, 48, 87, 175, 236, 192, 89, 23, 200, 48, 89, 143, 206, 192, 90, 247, 170, 48, 91, 111, 176,
    192, 92, 169, 103, 176, 93, 116, 124, 192, 94, 137, 73, 176, 95, 84, 94, 192, 96, 105, 43, 176,
    97, 52, 64, 192, 98, 73, 13, 176, 99, 29, 93, 64, 100, 40, 239, 176, 100, 244, 4, 192, 102, 18,
    12, 48, 102, 221, 33, 64, 103, 241, 238, 48, 104, 189, 3, 64, 105, 209, 208, 48, 106, 156, 229,
    64, 107, 177, 178, 48, 108, 124, 199, 64, 109, 145, 148, 48, 110, 92, 169, 64, 111, 122, 176,
    176, 112, 60, 139, 64, 113, 90, 146, 176, 114, 37, 167, 192, 115, 58, 116, 176, 116, 5, 137,
    192, 117, 26, 86, 176, 117, 229, 107, 192, 118, 250, 56, 176, 119, 197, 77, 192, 120, 218, 26,
    176, 121, 165, 47, 192, 122, 195, 55, 48, 123, 133, 17, 192, 124, 163, 25, 48, 125, 110, 46, 64,
    126, 130, 251, 48, 127, 78, 16, 64, 127, 255, 255, 255, 1, 2, 1, 3, 1, 4, 2, 4, 2, 4, 2, 4, 2,
    4, 2, 3, 2, 3, 5, 4, 2, 3, 6, 7, 6, 7, 6, 7, 6, 7, 6, 7, 6, 7, 6, 7, 6, 7, 6, 7, 6, 7, 6, 7, 6,
    7, 6, 7, 6, 7, 6, 7, 6, 7, 6, 7, 6, 7, 6, 7, 6, 7, 6, 7, 6, 7, 6, 7, 6, 7, 6, 7, 6, 7, 6, 7, 6,
    7, 6, 7, 6, 7, 6, 7, 6, 7, 6, 7, 6, 7, 6, 7, 6, 7, 6, 7, 6, 7, 6, 7, 6, 7, 6, 7, 6, 7, 6, 7, 6,
    7, 6, 7, 6, 7, 6, 7, 6, 7, 6, 7, 6, 7, 6, 7, 6, 7, 6, 7, 6, 7, 6, 7, 6, 7, 6, 7, 6, 7, 6, 7, 6,
    7, 6, 7, 6, 7, 6, 7, 6, 7, 6, 7, 6, 7, 6, 7, 6, 7, 6, 6, 255, 255, 189, 187, 0, 0, 255, 255,
    189, 187, 0, 4, 255, 255, 185, 176, 0, 8, 255, 255, 199, 192, 0, 12, 255, 255, 199, 192, 1, 12,
    255, 255, 213, 208, 1, 16, 255, 255, 213, 208, 1, 16, 255, 255, 199, 192, 0, 12, 76, 77, 84, 0,
    83, 77, 84, 0, 45, 48, 53, 0, 45, 48, 52, 0, 45, 48, 51, 0, 0, 0, 0, 0, 0, 0, 1, 1, 0, 0, 0, 0,
    0, 0, 1, 1, 84, 90, 105, 102, 51, 0, 0, 0, 0, 0, 0, 0, 0, 0, 0, 0, 0, 0, 0, 0, 0, 0, 0, 8, 0, 0,
    0, 8, 0, 0, 0, 0, 0, 0, 0, 160, 0, 0, 0, 8, 0, 0, 0, 20, 255, 255, 255, 255, 105, 135, 29, 197,
    255, 255, 255, 255, 143, 48, 71, 69, 255, 255, 255, 255, 155, 92, 229, 80, 255, 255, 255, 255,
    159, 124, 226, 197, 255, 255, 255, 255, 161, 0, 113, 192, 255, 255, 255, 255, 176, 94, 119, 197,
    255, 255, 255, 255, 177, 119, 61, 64, 255, 255, 255, 255, 178, 65, 0, 208, 255, 255, 255, 255,
    179, 88, 112, 192, 255, 255, 255, 255, 180, 34, 52, 80, 255, 255, 255, 255, 181, 57, 164, 64,
    255, 255, 255, 255, 182, 3, 103, 208, 255, 255, 255, 255, 183, 26, 215, 192, 255, 255, 255, 255,
    183, 228, 155, 80, 255, 255, 255, 255, 184, 253, 92, 192, 255, 255, 255, 255, 185, 199, 32, 80,
    255, 255, 255, 255, 204, 28, 110, 64, 255, 255, 255, 255, 204, 108, 231, 208, 255, 255, 255,
    255, 211, 220, 143, 192, 255, 255, 255, 255, 212, 23, 213, 48, 255, 255, 255, 255, 213, 51, 85,
    192, 255, 255, 255, 255, 213, 118, 146, 64, 255, 255, 255, 255, 253, 209, 60, 64, 255, 255, 255,
    255, 254, 146, 250, 176, 255, 255, 255, 255, 255, 204, 205, 192, 0, 0, 0, 0, 0, 114, 220, 176,
    0, 0, 0, 0, 1, 117, 80, 192, 0, 0, 0, 0, 2, 64, 73, 176, 0, 0, 0, 0, 3, 85, 50, 192, 0, 0, 0, 0,
    4, 32, 43, 176, 0, 0, 0, 0, 5, 62, 79, 64, 0, 0, 0, 0, 6, 0, 13, 176, 0, 0, 0, 0, 7, 11, 188,
    64, 0, 0, 0, 0, 7, 223, 239, 176, 0, 0, 0, 0, 8, 254, 19, 64, 0, 0, 0, 0, 9, 191, 209, 176, 0,
    0, 0, 0, 10, 221, 245, 64, 0, 0, 0, 0, 11, 168, 238, 48, 0, 0, 0, 0, 12, 189, 215, 64, 0, 0, 0,
    0, 13, 136, 208, 48, 0, 0, 0, 0, 14, 157, 185, 64, 0, 0, 0, 0, 15, 104, 178, 48, 0, 0, 0, 0, 16,
    134, 213, 192, 0, 0, 0, 0, 17, 72, 148, 48, 0, 0, 0, 0, 18, 102, 183, 192, 0, 0, 0, 0, 19, 40,
    118, 48, 0, 0, 0, 0, 20, 70, 153, 192, 0, 0, 0, 0, 21, 17, 146, 176, 0, 0, 0, 0, 22, 38, 123,
    192, 0, 0, 0, 0, 22, 241, 116, 176, 0, 0, 0, 0, 24, 6, 93, 192, 0, 0, 0, 0, 24, 209, 86, 176, 0,
    0, 0, 0, 25, 230, 63, 192, 0, 0, 0, 0, 26, 177, 56, 176, 0, 0, 0, 0, 27, 207, 92, 64, 0, 0, 0,
    0, 28, 145, 26, 176, 0, 0, 0, 0, 29, 175, 62, 64, 0, 0, 0, 0, 30, 112, 252, 176, 0, 0, 0, 0, 31,
    143, 32, 64, 0, 0, 0, 0, 32, 127, 3, 48, 0, 0, 0, 0, 33, 111, 2, 64, 0, 0, 0, 0, 34, 57, 251,
    48, 0, 0, 0, 0, 35, 78, 228, 64, 0, 0, 0, 0, 36, 25, 221, 48, 0, 0, 0, 0, 37, 56, 0, 192, 0, 0,
    0, 0, 37, 249, 191, 48, 0, 0, 0, 0, 38, 242, 248, 192, 0, 0, 0, 0, 39, 217, 161, 48, 0, 0, 0, 0,
    40, 247, 196, 192, 0, 0, 0, 0, 41, 194, 189, 176, 0, 0, 0, 0, 42, 215, 166, 192, 0, 0, 0, 0, 43,
    162, 159, 176, 0, 0, 0, 0, 44, 183, 136, 192, 0, 0, 0, 0, 45, 130, 129, 176, 0, 0, 0, 0, 46,
    151, 106, 192, 0, 0, 0, 0, 47, 98, 99, 176, 0, 0, 0, 0, 48, 128, 135, 64, 0, 0, 0, 0, 49, 66,
    69, 176, 0, 0, 0, 0, 50, 96, 105, 64, 0, 0, 0, 0, 51, 61, 215, 48, 0, 0, 0, 0, 52, 64, 75, 64,
    0, 0, 0, 0, 53, 11, 68, 48, 0, 0, 0, 0, 54, 13, 184, 64, 0, 0, 0, 0, 55, 6, 213, 176, 0, 0, 0,
    0, 56, 0, 15, 64, 0, 0, 0, 0, 56, 203, 8, 48, 0, 0, 0, 0, 57, 233, 43, 192, 0, 0, 0, 0, 58, 170,
    234, 48, 0, 0, 0, 0, 59, 201, 13, 192, 0, 0, 0, 0, 60, 138, 204, 48, 0, 0, 0, 0, 61, 168, 239,
    192, 0, 0, 0, 0, 62, 106, 174, 48, 0, 0, 0, 0, 63, 136, 209, 192, 0, 0, 0, 0, 64, 83, 202, 176,
    0, 0, 0, 0, 65, 104, 179, 192, 0, 0, 0, 0, 66, 51, 172, 176, 0, 0, 0, 0, 67, 72, 149, 192, 0, 0,
    0, 0, 68, 19, 142, 176, 0, 0, 0, 0, 69, 49, 178, 64, 0, 0, 0, 0, 69, 243, 112, 176, 0, 0, 0, 0,
    71, 17, 148, 64, 0, 0, 0, 0, 71, 239, 2, 48, 0, 0, 0, 0, 72, 241, 118, 64, 0, 0, 0, 0, 73, 188,
    111, 48, 0, 0, 0, 0, 74, 209, 88, 64, 0, 0, 0, 0, 75, 184, 0, 176, 0, 0, 0, 0, 76, 177, 58, 64,
    0, 0, 0, 0, 77, 198, 7, 48, 0, 0, 0, 0, 78, 80, 130, 192, 0, 0, 0, 0, 79, 156, 174, 176, 0, 0,
    0, 0, 80, 66, 217, 192, 0, 0, 0, 0, 81, 124, 144, 176, 0, 0, 0, 0, 82, 43, 246, 64, 0, 0, 0, 0,
    83, 92, 114, 176, 0, 0, 0, 0, 84, 11, 216, 64, 0, 0, 0, 0, 87, 55, 230, 48, 0, 0, 0, 0, 87, 175,
    236, 192, 0, 0, 0, 0, 89, 23, 200, 48, 0, 0, 0, 0, 89, 143, 206, 192, 0, 0, 0, 0, 90, 247, 170,
    48, 0, 0, 0, 0, 91, 111, 176, 192, 0, 0, 0, 0, 92, 169, 103, 176, 0, 0, 0, 0, 93, 116, 124, 192,
    0, 0, 0, 0, 94, 137, 73, 176, 0, 0, 0, 0, 95, 84, 94, 192, 0, 0, 0, 0, 96, 105, 43, 176, 0, 0,
    0, 0, 97, 52, 64, 192, 0, 0, 0, 0, 98, 73, 13, 176, 0, 0, 0, 0, 99, 29, 93, 64, 0, 0, 0, 0, 100,
    40, 239, 176, 0, 0, 0, 0, 100, 244, 4, 192, 0, 0, 0, 0, 102, 18, 12, 48, 0, 0, 0, 0, 102, 221,
    33, 64, 0, 0, 0, 0, 103, 241, 238, 48, 0, 0, 0, 0, 104, 189, 3, 64, 0, 0, 0, 0, 105, 209, 208,
    48, 0, 0, 0, 0, 106, 156, 229, 64, 0, 0, 0, 0, 107, 177, 178, 48, 0, 0, 0, 0, 108, 124, 199, 64,
    0, 0, 0, 0, 109, 145, 148, 48, 0, 0, 0, 0, 110, 92, 169, 64, 0, 0, 0, 0, 111, 122, 176, 176, 0,
    0, 0, 0, 112, 60, 139, 64, 0, 0, 0, 0, 113, 90, 146, 176, 0, 0, 0, 0, 114, 37, 167, 192, 0, 0,
    0, 0, 115, 58, 116, 176, 0, 0, 0, 0, 116, 5, 137, 192, 0, 0, 0, 0, 117, 26, 86, 176, 0, 0, 0, 0,
    117, 229, 107, 192, 0, 0, 0, 0, 118, 250, 56, 176, 0, 0, 0, 0, 119, 197, 77, 192, 0, 0, 0, 0,
    120, 218, 26, 176, 0, 0, 0, 0, 121, 165, 47, 192, 0, 0, 0, 0, 122, 195, 55, 48, 0, 0, 0, 0, 123,
    133, 17, 192, 0, 0, 0, 0, 124, 163, 25, 48, 0, 0, 0, 0, 125, 110, 46, 64, 0, 0, 0, 0, 126, 130,
    251, 48, 0, 0, 0, 0, 127, 78, 16, 64, 0, 0, 0, 0, 127, 255, 255, 255, 1, 2, 1, 3, 1, 4, 2, 4, 2,
    4, 2, 4, 2, 4, 2, 3, 2, 3, 5, 4, 2, 3, 6, 7, 6, 7, 6, 7, 6, 7, 6, 7, 6, 7, 6, 7, 6, 7, 6, 7, 6,
    7, 6, 7, 6, 7, 6, 7, 6, 7, 6, 7, 6, 7, 6, 7, 6, 7, 6, 7, 6, 7, 6, 7, 6, 7, 6, 7, 6, 7, 6, 7, 6,
    7, 6, 7, 6, 7, 6, 7, 6, 7, 6, 7, 6, 7, 6, 7, 6, 7, 6, 7, 6, 7, 6, 7, 6, 7, 6, 7, 6, 7, 6, 7, 6,
    7, 6, 7, 6, 7, 6, 7, 6, 7, 6, 7, 6, 7, 6, 7, 6, 7, 6, 7, 6, 7, 6, 7, 6, 7, 6, 7, 6, 7, 6, 7, 6,
    7, 6, 7, 6, 7, 6, 7, 6, 7, 6, 7, 6, 7, 6, 7, 6, 7, 6, 7, 6, 7, 6, 6, 255, 255, 189, 187, 0, 0,
    255, 255, 189, 187, 0, 4, 255, 255, 185, 176, 0, 8, 255, 255, 199, 192, 0, 12, 255, 255, 199,
    192, 1, 12, 255, 255, 213, 208, 1, 16, 255, 255, 213, 208, 1, 16, 255, 255, 199, 192, 0, 12, 76,
    77, 84, 0, 83, 77, 84, 0, 45, 48, 53, 0, 45, 48, 52, 0, 45, 48, 51, 0, 0, 0, 0, 0, 0, 0, 1, 1,
    0, 0, 0, 0, 0, 0, 1, 1, 10, 60, 45, 48, 52, 62, 52, 60, 45, 48, 51, 62, 44, 77, 57, 46, 49, 46,
    54, 47, 50, 52, 44, 77, 52, 46, 49, 46, 54, 47, 50, 52, 10
];

const ASIA_TOKYO: [u8; 309] = [
    84, 90, 105, 102, 50, 0, 0, 0, 0, 0, 0, 0, 0, 0, 0, 0, 0, 0, 0, 0, 0, 0, 0, 4, 0, 0, 0, 4, 0, 0,
    0, 0, 0, 0, 0, 9, 0, 0, 0, 4, 0, 0, 0, 12, 128, 0, 0, 0, 215, 62, 2, 112, 215, 237, 89, 240,
    216, 248, 250, 112, 217, 205, 59, 240, 219, 7, 0, 240, 219, 173, 29, 240, 220, 230, 226, 240,
    221, 140, 255, 240, 3, 1, 2, 1, 2, 1, 2, 1, 2, 0, 0, 131, 3, 0, 0, 0, 0, 140, 160, 1, 4, 0, 0,
    126, 144, 0, 8, 0, 0, 126, 144, 0, 8, 76, 77, 84, 0, 74, 68, 84, 0, 74, 83, 84, 0, 0, 0, 0, 1,
    0, 0, 0, 1, 84, 90, 105, 102, 50, 0, 0, 0, 0, 0, 0, 0, 0, 0, 0, 0, 0, 0, 0, 0, 0, 0, 0, 4, 0, 0,
    0, 4, 0, 0, 0, 0, 0, 0, 0, 9, 0, 0, 0, 4, 0, 0, 0, 12, 255, 255, 255, 255, 101, 194, 164, 112,
    255, 255, 255, 255, 215, 62, 2, 112, 255, 255, 255, 255, 215, 237, 89, 240, 255, 255, 255, 255,
    216, 248, 250, 112, 255, 255, 255, 255, 217, 205, 59, 240, 255, 255, 255, 255, 219, 7, 0, 240,
    255, 255, 255, 255, 219, 173, 29, 240, 255, 255, 255, 255, 220, 230, 226, 240, 255, 255, 255,
    255, 221, 140, 255, 240, 3, 1, 2, 1, 2, 1, 2, 1, 2, 0, 0, 131, 3, 0, 0, 0, 0, 140, 160, 1, 4, 0,
    0, 126, 144, 0, 8, 0, 0, 126, 144, 0, 8, 76, 77, 84, 0, 74, 68, 84, 0, 74, 83, 84, 0, 0, 0, 0,
    1, 0, 0, 0, 1, 10, 74, 83, 84, 45, 57, 10
];

const AUSTRALIA_SYDNEY: [u8; 2190] = [
    84, 90, 105, 102, 50, 0, 0, 0, 0, 0, 0, 0, 0, 0, 0, 0, 0, 0, 0, 0, 0, 0, 0, 0, 0, 0, 0, 4, 0, 0,
    0, 0, 0, 0, 0, 142, 0, 0, 0, 4, 0, 0, 0, 14, 128, 0, 0, 0, 156, 78, 194, 128, 156, 188, 47, 0,
    203, 84, 179, 0, 203, 199, 101, 128, 204, 183, 86, 128, 205, 167, 71, 128, 206, 160, 115, 0,
    207, 135, 41, 128, 3, 112, 57, 128, 4, 13, 28, 0, 5, 80, 27, 128, 5, 246, 56, 128, 7, 47, 253,
    128, 7, 214, 26, 128, 9, 15, 223, 128, 9, 181, 252, 128, 10, 239, 193, 128, 11, 159, 25, 0, 12,
    216, 222, 0, 13, 126, 251, 0, 14, 184, 192, 0, 15, 94, 221, 0, 16, 152, 162, 0, 17, 62, 191, 0,
    18, 120, 132, 0, 19, 30, 161, 0, 20, 88, 102, 0, 20, 254, 131, 0, 22, 56, 72, 0, 23, 12, 137,
    128, 24, 33, 100, 128, 24, 199, 129, 128, 26, 1, 70, 128, 26, 167, 99, 128, 27, 225, 40, 128,
    28, 135, 69, 128, 29, 193, 10, 128, 30, 121, 156, 128, 31, 151, 178, 0, 32, 89, 126, 128, 33,
    128, 206, 128, 34, 66, 155, 0, 35, 105, 235, 0, 36, 34, 125, 0, 37, 73, 205, 0, 37, 239, 234, 0,
    39, 41, 175, 0, 39, 207, 204, 0, 41, 9, 145, 0, 41, 175, 174, 0, 42, 233, 115, 0, 43, 152, 202,
    128, 44, 210, 143, 128, 45, 120, 172, 128, 46, 178, 113, 128, 47, 88, 142, 128, 48, 146, 83,
    128, 49, 93, 90, 128, 50, 114, 53, 128, 51, 61, 60, 128, 52, 82, 23, 128, 53, 29, 30, 128, 54,
    49, 249, 128, 54, 253, 0, 128, 56, 27, 22, 0, 56, 220, 226, 128, 57, 167, 233, 128, 58, 188,
    196, 128, 59, 218, 218, 0, 60, 165, 225, 0, 61, 186, 188, 0, 62, 133, 195, 0, 63, 154, 158, 0,
    64, 101, 165, 0, 65, 131, 186, 128, 66, 69, 135, 0, 67, 99, 156, 128, 68, 46, 163, 128, 69, 67,
    126, 128, 70, 5, 75, 0, 71, 35, 96, 128, 71, 247, 162, 0, 72, 231, 147, 0, 73, 215, 132, 0, 74,
    199, 117, 0, 75, 183, 102, 0, 76, 167, 87, 0, 77, 151, 72, 0, 78, 135, 57, 0, 79, 119, 42, 0,
    80, 112, 85, 128, 81, 96, 70, 128, 82, 80, 55, 128, 83, 64, 40, 128, 84, 48, 25, 128, 85, 32,
    10, 128, 86, 15, 251, 128, 86, 255, 236, 128, 87, 239, 221, 128, 88, 223, 206, 128, 89, 207,
    191, 128, 90, 191, 176, 128, 91, 184, 220, 0, 92, 168, 205, 0, 93, 152, 190, 0, 94, 136, 175, 0,
    95, 120, 160, 0, 96, 104, 145, 0, 97, 88, 130, 0, 98, 72, 115, 0, 99, 56, 100, 0, 100, 40, 85,
    0, 101, 24, 70, 0, 102, 17, 113, 128, 103, 1, 98, 128, 103, 241, 83, 128, 104, 225, 68, 128,
    105, 209, 53, 128, 106, 193, 38, 128, 107, 177, 23, 128, 108, 161, 8, 128, 109, 144, 249, 128,
    110, 128, 234, 128, 111, 112, 219, 128, 112, 106, 7, 0, 113, 89, 248, 0, 114, 73, 233, 0, 115,
    57, 218, 0, 116, 41, 203, 0, 117, 25, 188, 0, 118, 9, 173, 0, 118, 249, 158, 0, 119, 233, 143,
    0, 120, 217, 128, 0, 121, 201, 113, 0, 122, 185, 98, 0, 123, 178, 141, 128, 124, 162, 126, 128,
    125, 146, 111, 128, 126, 130, 96, 128, 127, 114, 81, 128, 3, 1, 2, 1, 2, 1, 2, 1, 2, 1, 2, 1, 2,
    1, 2, 1, 2, 1, 2, 1, 2, 1, 2, 1, 2, 1, 2, 1, 2, 1, 2, 1, 2, 1, 2, 1, 2, 1, 2, 1, 2, 1, 2, 1, 2,
    1, 2, 1, 2, 1, 2, 1, 2, 1, 2, 1, 2, 1, 2, 1, 2, 1, 2, 1, 2, 1, 2, 1, 2, 1, 2, 1, 2, 1, 2, 1, 2,
    1, 2, 1, 2, 1, 2, 1, 2, 1, 2, 1, 2, 1, 2, 1, 2, 1, 2, 1, 2, 1, 2, 1, 2, 1, 2, 1, 2, 1, 2, 1, 2,
    1, 2, 1, 2, 1, 2, 1, 2, 1, 2, 1, 2, 1, 2, 1, 2, 1, 2, 1, 2, 1, 2, 1, 2, 1, 2, 1, 2, 1, 2, 1, 2,
    1, 0, 0, 141, 196, 0, 0, 0, 0, 154, 176, 1, 4, 0, 0, 140, 160, 0, 9, 0, 0, 140, 160, 0, 9, 76,
    77, 84, 0, 65, 69, 68, 84, 0, 65, 69, 83, 84, 0, 0, 1, 1, 0, 84, 90, 105, 102, 50, 0, 0, 0, 0,
    0, 0, 0, 0, 0, 0, 0, 0, 0, 0, 0, 0, 0, 0, 0, 0, 0, 0, 4, 0, 0, 0, 0, 0, 0, 0, 142, 0, 0, 0, 4,
    0, 0, 0, 14, 255, 255, 255, 255, 115, 22, 127, 60, 255, 255, 255, 255, 156, 78, 194, 128, 255,
    255, 255, 255, 156, 188, 47, 0, 255, 255, 255, 255, 203, 84, 179, 0, 255, 255, 255, 255, 203,
    199, 101, 128, 255, 255, 255, 255, 204, 183, 86, 128, 255, 255, 255, 255, 205, 167, 71, 128,
    255, 255, 255, 255, 206, 160, 115, 0, 255, 255, 255, 255, 207, 135, 41, 128, 0, 0, 0, 0, 3, 112,
    57, 128, 0, 0, 0, 0, 4, 13, 28, 0, 0, 0, 0, 0, 5, 80, 27, 128, 0, 0, 0, 0, 5, 246, 56, 128, 0,
    0, 0, 0, 7, 47, 253, 128, 0, 0, 0, 0, 7, 214, 26, 128, 0, 0, 0, 0, 9, 15, 223, 128, 0, 0, 0, 0,
    9, 181, 252, 128, 0, 0, 0, 0, 10, 239, 193, 128, 0, 0, 0, 0, 11, 159, 25, 0, 0, 0, 0, 0, 12,
    216, 222, 0, 0, 0, 0, 0, 13, 126, 251, 0, 0, 0, 0, 0, 14, 184, 192, 0, 0, 0, 0, 0, 15, 94, 221,
    0, 0, 0, 0, 0, 16, 152, 162, 0, 0, 0, 0, 0, 17, 62, 191, 0, 0, 0, 0, 0, 18, 120, 132, 0, 0, 0,
    0, 0, 19, 30, 161, 0, 0, 0, 0, 0, 20, 88, 102, 0, 0, 0, 0, 0, 20, 254, 131, 0, 0, 0, 0, 0, 22,
    56, 72, 0, 0, 0, 0, 0, 23, 12, 137, 128, 0, 0, 0, 0, 24, 33, 100, 128, 0, 0, 0, 0, 24, 199, 129,
    128, 0, 0, 0, 0, 26, 1, 70, 128, 0, 0, 0, 0, 26, 167, 99, 128, 0, 0, 0, 0, 27, 225, 40, 128, 0,
    0, 0, 0, 28, 135, 69, 128, 0, 0, 0, 0, 29, 193, 10, 128, 0, 0, 0, 0, 30, 121, 156, 128, 0, 0, 0,
    0, 31, 151, 178, 0, 0, 0, 0, 0, 32, 89, 126, 128, 0, 0, 0, 0, 33, 128, 206, 128, 0, 0, 0, 0, 34,
    66, 155, 0, 0, 0, 0, 0, 35, 105, 235, 0, 0, 0, 0, 0, 36, 34, 125, 0, 0, 0, 0, 0, 37, 73, 205, 0,
    0, 0, 0, 0, 37, 239, 234, 0, 0, 0, 0, 0, 39, 41, 175, 0, 0, 0, 0, 0, 39, 207, 204, 0, 0, 0, 0,
    0, 41, 9, 145, 0, 0, 0, 0, 0, 41, 175, 174, 0, 0, 0, 0, 0, 42, 233, 115, 0, 0, 0, 0, 0, 43, 152,
    202, 128, 0, 0, 0, 0, 44, 210, 143, 128, 0, 0, 0, 0, 45, 120, 172, 128, 0, 0, 0, 0, 46, 178,
    113, 128, 0, 0, 0, 0, 47, 88, 142, 128, 0, 0, 0, 0, 48, 146, 83, 128, 0, 0, 0, 0, 49, 93, 90,
    128, 0, 0, 0, 0, 50, 114, 53, 128, 0, 0, 0, 0, 51, 61, 60, 128, 0, 0, 0, 0, 52, 82, 23, 128, 0,
    0, 0, 0, 53, 29, 30, 128, 0, 0, 0, 0, 54, 49, 249, 128, 0, 0, 0, 0, 54, 253, 0, 128, 0, 0, 0, 0,
    56, 27, 22, 0, 0, 0, 0, 0, 56, 220, 226, 128, 0, 0, 0, 0, 57, 167, 233, 128, 0, 0, 0, 0, 58,
    188, 196, 128, 0, 0, 0, 0, 59, 218, 218, 0, 0, 0, 0, 0, 60, 165, 225, 0, 0, 0, 0, 0, 61, 186,
    188, 0, 0, 0, 0, 0, 62, 133, 195, 0, 0, 0, 0, 0, 63, 154, 158, 0, 0, 0, 0, 0, 64, 101, 165, 0,
    0, 0, 0, 0, 65, 131, 186, 128, 0, 0, 0, 0, 66, 69, 135, 0, 0, 0, 0, 0, 67, 99, 156, 128, 0, 0,
    0, 0, 68, 46, 163, 128, 0, 0, 0, 0, 69, 67, 126, 128, 0, 0, 0, 0, 70, 5, 75, 0, 0, 0, 0, 0, 71,
    35, 96, 128, 0, 0, 0, 0, 71, 247, 162, 0, 0, 0, 0, 0, 72, 231, 147, 0, 0, 0, 0, 0, 73, 215, 132,
    0, 0, 0, 0, 0, 74, 199, 117, 0, 0, 0, 0, 0, 75, 183, 102, 0, 0, 0, 0, 0, 76, 167, 87, 0, 0, 0,
    0, 0, 77, 151, 72, 0, 0, 0, 0, 0, 78, 135, 57, 0, 0, 0, 0, 0, 79, 119, 42, 0, 0, 0, 0, 0, 80,
    112, 85, 128, 0, 0, 0, 0, 81, 96, 70, 128, 0, 0, 0, 0, 82, 80, 55, 128, 0, 0, 0, 0, 83, 64, 40,
    128, 0, 0, 0, 0, 84, 48, 25, 128, 0, 0, 0, 0, 85, 32, 10, 128, 0, 0, 0, 0, 86, 15, 251, 128, 0,
    0, 0, 0, 86, 255, 236, 128, 0, 0, 0, 0, 87, 239, 221, 128, 0, 0, 0, 0, 88, 223, 206, 128, 0, 0,
    0, 0, 89, 207, 191, 128, 0, 0, 0, 0, 90, 191, 176, 128, 0, 0, 0, 0, 91, 184, 220, 0, 0, 0, 0, 0,
    92, 168, 205, 0, 0, 0, 0, 0, 93, 152, 190, 0, 0, 0, 0, 0, 94, 136, 175, 0, 0, 0, 0, 0, 95, 120,
    160, 0, 0, 0, 0, 0, 96, 104, 145, 0, 0, 0, 0, 0, 97, 88, 130, 0, 0, 0, 0, 0, 98, 72, 115, 0, 0,
    0, 0, 0, 99, 56, 100, 0, 0, 0, 0, 0, 100, 40, 85, 0, 0, 0, 0, 0, 101, 24, 70, 0, 0, 0, 0, 0,
    102, 17, 113, 128, 0, 0, 0, 0, 103, 1, 98, 128, 0, 0, 0, 0, 103, 241, 83, 128, 0, 0, 0, 0, 104,
    225, 68, 128, 0, 0, 0, 0, 105, 209, 53, 128, 0, 0, 0, 0, 106, 193, 38, 128, 0, 0, 0, 0, 107,
    177, 23, 128, 0, 0, 0, 0, 108, 161, 8, 128, 0, 0, 0, 0, 109, 144, 249, 128, 0, 0, 0, 0, 110,
    128, 234, 128, 0, 0, 0, 0, 111, 112, 219, 128, 0, 0, 0, 0, 112, 106, 7, 0, 0, 0, 0, 0, 113, 89,
    248, 0, 0, 0, 0, 0, 114, 73, 233, 0, 0, 0, 0, 0, 115, 57, 218, 0, 0, 0, 0, 0, 116, 41, 203, 0,
    0, 0, 0, 0, 117, 25, 188, 0, 0, 0, 0, 0, 118, 9, 173, 0, 0, 0, 0, 0, 118, 249, 158, 0, 0, 0, 0,
    0, 119, 233, 143, 0, 0, 0, 0, 0, 120, 217, 128, 0, 0, 0, 0, 0, 121, 201, 113, 0, 0, 0, 0, 0,
    122, 185, 98, 0, 0, 0, 0, 0, 123, 178, 141, 128, 0, 0, 0, 0, 124, 162, 126, 128, 0, 0, 0, 0,
    125, 146, 111, 128, 0, 0, 0, 0, 126, 130, 96, 128, 0, 0, 0, 0, 127, 114, 81, 128, 3, 1, 2, 1, 2,
    1, 2, 1, 2, 1, 2, 1, 2, 1, 2, 1, 2, 1, 2, 1, 2, 1, 2, 1, 2, 1, 2, 1, 2, 1, 2, 1, 2, 1, 2, 1, 2,
    1, 2, 1, 2, 1, 2, 1, 2, 1, 2, 1, 2, 1, 2, 1, 2, 1, 2, 1, 2, 1, 2, 1, 2, 1, 2, 1, 2, 1, 2, 1, 2,
    1, 2, 1, 2, 1, 2, 1, 2, 1, 2, 1, 2, 1, 2, 1, 2, 1, 2, 1, 2, 1, 2, 1, 2, 1, 2, 1, 2, 1, 2, 1, 2,
    1, 2, 1, 2, 1, 2, 1, 2, 1, 2, 1, 2, 1, 2, 1, 2, 1, 2, 1, 2, 1, 2, 1, 2, 1, 2, 1, 2, 1, 2, 1, 2,
    1, 2, 1, 2, 1, 2, 1, 2, 1, 0, 0, 141, 196, 0, 0, 0, 0, 154, 176, 1, 4, 0, 0, 140, 160, 0, 9, 0,
    0, 140, 160, 0, 9, 76, 77, 84, 0, 65, 69, 68, 84, 0, 65, 69, 83, 84, 0, 0, 1, 1, 0, 10, 65, 69,
    83, 84, 45, 49, 48, 65, 69, 68, 84, 44, 77, 49, 48, 46, 49, 46, 48, 44, 77, 52, 46, 49, 46, 48,
    47, 51, 10
];

const EUROPE_DUBLIN: [u8; 3492] = [
    84, 90, 105, 102, 50, 0, 0, 0, 0, 0, 0, 0, 0, 0, 0, 0, 0, 0, 0, 0, 0, 0, 0, 9, 0, 0, 0, 9, 0, 0,
    0, 0, 0, 0, 0, 228, 0, 0, 0, 9, 0, 0, 0, 20, 128, 0, 0, 0, 155, 38, 179, 145, 155, 214, 11, 17,
    156, 207, 48, 160, 157, 164, 195, 160, 158, 156, 157, 160, 159, 151, 26, 160, 160, 133, 186, 32,
    161, 118, 252, 160, 162, 101, 156, 32, 163, 123, 200, 160, 164, 78, 184, 160, 165, 63, 251, 32,
    166, 37, 96, 32, 167, 39, 198, 32, 168, 42, 44, 32, 168, 235, 248, 160, 170, 0, 211, 160, 170,
    213, 21, 32, 171, 233, 240, 32, 172, 199, 108, 32, 173, 201, 210, 32, 174, 167, 78, 32, 175,
    160, 121, 160, 176, 135, 48, 32, 177, 146, 208, 160, 178, 112, 76, 160, 179, 114, 178, 160, 180,
    80, 46, 160, 181, 73, 90, 32, 182, 48, 16, 160, 183, 50, 118, 160, 184, 15, 242, 160, 185, 18,
    88, 160, 185, 239, 212, 160, 186, 233, 0, 32, 187, 216, 241, 32, 188, 219, 87, 32, 189, 184,
    211, 32, 190, 177, 254, 160, 191, 152, 181, 32, 192, 155, 27, 32, 193, 120, 151, 32, 194, 122,
    253, 32, 195, 88, 121, 32, 196, 81, 164, 160, 197, 56, 91, 32, 198, 58, 193, 32, 199, 88, 214,
    160, 199, 218, 9, 160, 212, 73, 224, 32, 213, 30, 33, 160, 214, 78, 172, 32, 215, 44, 40, 32,
    216, 46, 142, 32, 216, 249, 149, 32, 218, 14, 112, 32, 218, 235, 236, 32, 219, 229, 23, 160,
    220, 203, 206, 32, 221, 196, 249, 160, 222, 180, 234, 160, 223, 174, 22, 32, 224, 148, 204, 160,
    225, 114, 72, 160, 226, 107, 116, 32, 227, 82, 42, 160, 228, 84, 144, 160, 229, 50, 12, 160,
    230, 61, 173, 32, 231, 27, 41, 32, 232, 20, 84, 160, 232, 251, 11, 32, 233, 253, 113, 32, 234,
    218, 237, 32, 235, 221, 83, 32, 236, 186, 207, 32, 237, 179, 250, 160, 238, 154, 177, 32, 239,
    129, 103, 160, 240, 159, 125, 32, 241, 97, 73, 160, 242, 127, 95, 32, 243, 74, 102, 32, 244, 95,
    65, 32, 245, 33, 13, 160, 246, 63, 35, 32, 247, 0, 239, 160, 248, 31, 5, 32, 248, 224, 209, 160,
    249, 254, 231, 32, 250, 192, 179, 160, 251, 232, 3, 160, 252, 123, 171, 160, 253, 199, 187, 112,
    3, 112, 198, 32, 4, 41, 88, 32, 5, 80, 168, 32, 6, 9, 58, 32, 7, 48, 138, 32, 7, 233, 28, 32, 9,
    16, 108, 32, 9, 200, 254, 32, 10, 240, 78, 32, 11, 178, 26, 160, 12, 208, 48, 32, 13, 145, 252,
    160, 14, 176, 18, 32, 15, 113, 222, 160, 16, 153, 46, 160, 17, 81, 192, 160, 18, 121, 16, 160,
    19, 49, 162, 160, 20, 88, 242, 160, 21, 35, 235, 144, 22, 56, 198, 144, 23, 3, 205, 144, 24, 24,
    168, 144, 24, 227, 175, 144, 25, 248, 138, 144, 26, 195, 145, 144, 27, 225, 167, 16, 28, 172,
    174, 16, 29, 193, 137, 16, 30, 140, 144, 16, 31, 161, 107, 16, 32, 108, 114, 16, 33, 129, 77,
    16, 34, 76, 84, 16, 35, 97, 47, 16, 36, 44, 54, 16, 37, 74, 75, 144, 38, 12, 24, 16, 39, 42, 45,
    144, 39, 245, 52, 144, 41, 10, 15, 144, 41, 213, 22, 144, 42, 233, 241, 144, 43, 180, 248, 144,
    44, 201, 211, 144, 45, 148, 218, 144, 46, 169, 181, 144, 47, 116, 188, 144, 48, 137, 151, 144,
    49, 93, 217, 16, 50, 114, 180, 16, 51, 61, 187, 16, 52, 82, 150, 16, 53, 29, 157, 16, 54, 50,
    120, 16, 54, 253, 127, 16, 56, 27, 148, 144, 56, 221, 97, 16, 57, 251, 118, 144, 58, 189, 67,
    16, 59, 219, 88, 144, 60, 166, 95, 144, 61, 187, 58, 144, 62, 134, 65, 144, 63, 155, 28, 144,
    64, 102, 35, 144, 65, 132, 57, 16, 66, 70, 5, 144, 67, 100, 27, 16, 68, 37, 231, 144, 69, 67,
    253, 16, 70, 5, 201, 144, 71, 35, 223, 16, 71, 238, 230, 16, 73, 3, 193, 16, 73, 206, 200, 16,
    74, 227, 163, 16, 75, 174, 170, 16, 76, 204, 191, 144, 77, 142, 140, 16, 78, 172, 161, 144, 79,
    110, 110, 16, 80, 140, 131, 144, 81, 87, 138, 144, 82, 108, 101, 144, 83, 55, 108, 144, 84, 76,
    71, 144, 85, 23, 78, 144, 86, 44, 41, 144, 86, 247, 48, 144, 88, 21, 70, 16, 88, 215, 18, 144,
    89, 245, 40, 16, 90, 182, 244, 144, 91, 213, 10, 16, 92, 160, 17, 16, 93, 180, 236, 16, 94, 127,
    243, 16, 95, 148, 206, 16, 96, 95, 213, 16, 97, 125, 234, 144, 98, 63, 183, 16, 99, 93, 204,
    144, 100, 31, 153, 16, 101, 61, 174, 144, 102, 8, 181, 144, 103, 29, 144, 144, 103, 232, 151,
    144, 104, 253, 114, 144, 105, 200, 121, 144, 106, 221, 84, 144, 107, 168, 91, 144, 108, 198,
    113, 16, 109, 136, 61, 144, 110, 166, 83, 16, 111, 104, 31, 144, 112, 134, 53, 16, 113, 81, 60,
    16, 114, 102, 23, 16, 115, 49, 30, 16, 116, 69, 249, 16, 117, 17, 0, 16, 118, 47, 21, 144, 118,
    240, 226, 16, 120, 14, 247, 144, 120, 208, 196, 16, 121, 238, 217, 144, 122, 176, 166, 16, 123,
    206, 187, 144, 124, 153, 194, 144, 125, 174, 157, 144, 126, 121, 164, 144, 127, 142, 127, 144,
    1, 2, 4, 3, 4, 3, 4, 3, 4, 3, 4, 3, 4, 5, 4, 5, 4, 5, 4, 5, 4, 5, 4, 5, 4, 5, 4, 5, 4, 5, 4, 5,
    4, 5, 4, 5, 4, 5, 4, 5, 4, 5, 4, 5, 4, 5, 4, 5, 4, 5, 4, 5, 4, 5, 4, 5, 4, 5, 4, 5, 4, 5, 4, 5,
    4, 5, 4, 5, 4, 5, 4, 5, 4, 5, 4, 5, 4, 5, 4, 5, 4, 5, 4, 5, 4, 5, 4, 5, 4, 5, 4, 5, 4, 5, 8, 6,
    7, 6, 7, 6, 7, 6, 7, 6, 7, 6, 7, 6, 7, 6, 7, 6, 7, 6, 7, 6, 7, 6, 7, 6, 7, 6, 7, 6, 7, 6, 7, 6,
    7, 6, 7, 6, 7, 6, 7, 6, 7, 6, 7, 6, 7, 6, 7, 6, 7, 6, 7, 6, 7, 6, 7, 6, 7, 6, 7, 6, 7, 6, 7, 6,
    7, 6, 7, 6, 7, 6, 7, 6, 7, 6, 7, 6, 7, 6, 7, 6, 7, 6, 7, 6, 7, 6, 7, 6, 7, 6, 7, 6, 7, 6, 7, 6,
    7, 6, 7, 6, 7, 6, 7, 6, 7, 6, 7, 6, 7, 6, 7, 6, 7, 6, 7, 6, 7, 6, 7, 6, 7, 6, 7, 6, 7, 6, 7, 6,
    7, 6, 7, 6, 255, 255, 250, 15, 0, 0, 255, 255, 250, 15, 0, 4, 0, 0, 8, 31, 1, 8, 0, 0, 14, 16,
    1, 12, 0, 0, 0, 0, 0, 16, 0, 0, 14, 16, 1, 8, 0, 0, 0, 0, 1, 16, 0, 0, 14, 16, 0, 8, 0, 0, 14,
    16, 0, 8, 76, 77, 84, 0, 68, 77, 84, 0, 73, 83, 84, 0, 66, 83, 84, 0, 71, 77, 84, 0, 0, 0, 1, 1,
    1, 1, 1, 1, 0, 0, 0, 0, 0, 0, 0, 1, 1, 0, 84, 90, 105, 102, 50, 0, 0, 0, 0, 0, 0, 0, 0, 0, 0, 0,
    0, 0, 0, 0, 0, 0, 0, 9, 0, 0, 0, 9, 0, 0, 0, 0, 0, 0, 0, 228, 0, 0, 0, 9, 0, 0, 0, 20, 255, 255,
    255, 255, 87, 209, 10, 241, 255, 255, 255, 255, 155, 38, 179, 145, 255, 255, 255, 255, 155, 214,
    11, 17, 255, 255, 255, 255, 156, 207, 48, 160, 255, 255, 255, 255, 157, 164, 195, 160, 255, 255,
    255, 255, 158, 156, 157, 160, 255, 255, 255, 255, 159, 151, 26, 160, 255, 255, 255, 255, 160,
    133, 186, 32, 255, 255, 255, 255, 161, 118, 252, 160, 255, 255, 255, 255, 162, 101, 156, 32,
    255, 255, 255, 255, 163, 123, 200, 160, 255, 255, 255, 255, 164, 78, 184, 160, 255, 255, 255,
    255, 165, 63, 251, 32, 255, 255, 255, 255, 166, 37, 96, 32, 255, 255, 255, 255, 167, 39, 198,
    32, 255, 255, 255, 255, 168, 42, 44, 32, 255, 255, 255, 255, 168, 235, 248, 160, 255, 255, 255,
    255, 170, 0, 211, 160, 255, 255, 255, 255, 170, 213, 21, 32, 255, 255, 255, 255, 171, 233, 240,
    32, 255, 255, 255, 255, 172, 199, 108, 32, 255, 255, 255, 255, 173, 201, 210, 32, 255, 255, 255,
    255, 174, 167, 78, 32, 255, 255, 255, 255, 175, 160, 121, 160, 255, 255, 255, 255, 176, 135, 48,
    32, 255, 255, 255, 255, 177, 146, 208, 160, 255, 255, 255, 255, 178, 112, 76, 160, 255, 255,
    255, 255, 179, 114, 178, 160, 255, 255, 255, 255, 180, 80, 46, 160, 255, 255, 255, 255, 181, 73,
    90, 32, 255, 255, 255, 255, 182, 48, 16, 160, 255, 255, 255, 255, 183, 50, 118, 160, 255, 255,
    255, 255, 184, 15, 242, 160, 255, 255, 255, 255, 185, 18, 88, 160, 255, 255, 255, 255, 185, 239,
    212, 160, 255, 255, 255, 255, 186, 233, 0, 32, 255, 255, 255, 255, 187, 216, 241, 32, 255, 255,
    255, 255, 188, 219, 87, 32, 255, 255, 255, 255, 189, 184, 211, 32, 255, 255, 255, 255, 190, 177,
    254, 160, 255, 255, 255, 255, 191, 152, 181, 32, 255, 255, 255, 255, 192, 155, 27, 32, 255, 255,
    255, 255, 193, 120, 151, 32, 255, 255, 255, 255, 194, 122, 253, 32, 255, 255, 255, 255, 195, 88,
    121, 32, 255, 255, 255, 255, 196, 81, 164, 160, 255, 255, 255, 255, 197, 56, 91, 32, 255, 255,
    255, 255, 198, 58, 193, 32, 255, 255, 255, 255, 199, 88, 214, 160, 255, 255, 255, 255, 199, 218,
    9, 160, 255, 255, 255, 255, 212, 73, 224, 32, 255, 255, 255, 255, 213, 30, 33, 160, 255, 255,
    255, 255, 214, 78, 172, 32, 255, 255, 255, 255, 215, 44, 40, 32, 255, 255, 255, 255, 216, 46,
    142, 32, 255, 255, 255, 255, 216, 249, 149, 32, 255, 255, 255, 255, 218, 14, 112, 32, 255, 255,
    255, 255, 218, 235, 236, 32, 255, 255, 255, 255, 219, 229, 23, 160, 255, 255, 255, 255, 220,
    203, 206, 32, 255, 255, 255, 255, 221, 196, 249, 160, 255, 255, 255, 255, 222, 180, 234, 160,
    255, 255, 255, 255, 223, 174, 22, 32, 255, 255, 255, 255, 224, 148, 204, 160, 255, 255, 255,
    255, 225, 114, 72, 160, 255, 255, 255, 255, 226, 107, 116, 32, 255, 255, 255, 255, 227, 82, 42,
    160, 255, 255, 255, 255, 228, 84, 144, 160, 255, 255, 255, 255, 229, 50, 12, 160, 255, 255, 255,
    255, 230, 61, 173, 32, 255, 255, 255, 255, 231, 27, 41, 32, 255, 255, 255, 255, 232, 20, 84,
    160, 255, 255, 255, 255, 232, 251, 11, 32, 255, 255, 255, 255, 233, 253, 113, 32, 255, 255, 255,
    255, 234, 218, 237, 32, 255, 255, 255, 255, 235, 221, 83, 32, 255, 255, 255, 255, 236, 186, 207,
    32, 255, 255, 255, 255, 237, 179, 250, 160, 255, 255, 255, 255, 238, 154, 177, 32, 255, 255,
    255, 255, 239, 129, 103, 160, 255, 255, 255, 255, 240, 159, 125, 32, 255, 255, 255, 255, 241,
    97, 73, 160, 255, 255, 255, 255, 242, 127, 95, 32, 255, 255, 255, 255, 243, 74, 102, 32, 255,
    255, 255, 255, 244, 95, 65, 32, 255, 255, 255, 255, 245, 33, 13, 160, 255, 255, 255, 255, 246,
    63, 35, 32, 255, 255, 255, 255, 247, 0, 239, 160, 255, 255, 255, 255, 248, 31, 5, 32, 255, 255,
    255, 255, 248, 224, 209, 160, 255, 255, 255, 255, 249, 254, 231, 32, 255, 255, 255, 255, 250,
    192, 179, 160, 255, 255, 255, 255, 251, 232, 3, 160, 255, 255, 255, 255, 252, 123, 171, 160,
    255, 255, 255, 255, 253, 199, 187, 112, 0, 0, 0, 0, 3, 112, 198, 32, 0, 0, 0, 0, 4, 41, 88, 32,
    0, 0, 0, 0, 5, 80, 168, 32, 0, 0, 0, 0, 6, 9, 58, 32, 0, 0, 0, 0, 7, 48, 138, 32, 0, 0, 0, 0, 7,
    233, 28, 32, 0, 0, 0, 0, 9, 16, 108, 32, 0, 0, 0, 0, 9, 200, 254, 32, 0, 0, 0, 0, 10, 240, 78,
    32, 0, 0, 0, 0, 11, 178, 26, 160, 0, 0, 0, 0, 12, 208, 48, 32, 0, 0, 0, 0, 13, 145, 252, 160, 0,
    0, 0, 0, 14, 176, 18, 32, 0, 0, 0, 0, 15, 113, 222, 160, 0, 0, 0, 0, 16, 153, 46, 160, 0, 0, 0,
    0, 17, 81, 192, 160, 0, 0, 0, 0, 18, 121, 16, 160, 0, 0, 0, 0, 19, 49, 162, 160, 0, 0, 0, 0, 20,
    88, 242, 160, 0, 0, 0, 0, 21, 35, 235, 144, 0, 0, 0, 0, 22, 56, 198, 144, 0, 0, 0, 0, 23, 3,
    205, 144, 0, 0, 0, 0, 24, 24, 168, 144, 0, 0, 0, 0, 24, 227, 175, 144, 0, 0, 0, 0, 25, 248, 138,
    144, 0, 0, 0, 0, 26, 195, 145, 144, 0, 0, 0, 0, 27, 225, 167, 16, 0, 0, 0, 0, 28, 172, 174, 16,
    0, 0, 0, 0, 29, 193, 137, 16, 0, 0, 0, 0, 30, 140, 144, 16, 0, 0, 0, 0, 31, 161, 107, 16, 0, 0,
    0, 0, 32, 108, 114, 16, 0, 0, 0, 0, 33, 129, 77, 16, 0, 0, 0, 0, 34, 76, 84, 16, 0, 0, 0, 0, 35,
    97, 47, 16, 0, 0, 0, 0, 36, 44, 54, 16, 0, 0, 0, 0, 37, 74, 75, 144, 0, 0, 0, 0, 38, 12, 24, 16,
    0, 0, 0, 0, 39, 42, 45, 144, 0, 0, 0, 0, 39, 245, 52, 144, 0, 0, 0, 0, 41, 10, 15, 144, 0, 0, 0,
    0, 41, 213, 22, 144, 0, 0, 0, 0, 42, 233, 241, 144, 0, 0, 0, 0, 43, 180, 248, 144, 0, 0, 0, 0,
    44, 201, 211, 144, 0, 0, 0, 0, 45, 148, 218, 144, 0, 0, 0, 0, 46, 169, 181, 144, 0, 0, 0, 0, 47,
    116, 188, 144, 0, 0, 0, 0, 48, 137, 151, 144, 0, 0, 0, 0, 49, 93, 217, 16, 0, 0, 0, 0, 50, 114,
    180, 16, 0, 0, 0, 0, 51, 61, 187, 16, 0, 0, 0, 0, 52, 82, 150, 16, 0, 0, 0, 0, 53, 29, 157, 16,
    0, 0, 0, 0, 54, 50, 120, 16, 0, 0, 0, 0, 54, 253, 127, 16, 0, 0, 0, 0, 56, 27, 148, 144, 0, 0,
    0, 0, 56, 221, 97, 16, 0, 0, 0, 0, 57, 251, 118, 144, 0, 0, 0, 0, 58, 189, 67, 16, 0, 0, 0, 0,
    59, 219, 88, 144, 0, 0, 0, 0, 60, 166, 95, 144, 0, 0, 0, 0, 61, 187, 58, 144, 0, 0, 0, 0, 62,
    134, 65, 144, 0, 0, 0, 0, 63, 155, 28, 144, 0, 0, 0, 0, 64, 102, 35, 144, 0, 0, 0, 0, 65, 132,
    57, 16, 0, 0, 0, 0, 66, 70, 5, 144, 0, 0, 0, 0, 67, 100, 27, 16, 0, 0, 0, 0, 68, 37, 231, 144,
    0, 0, 0, 0, 69, 67, 253, 16, 0, 0, 0, 0, 70, 5, 201, 144, 0, 0, 0, 0, 71, 35, 223, 16, 0, 0, 0,
    0, 71, 238, 230, 16, 0, 0, 0, 0, 73, 3, 193, 16, 0, 0, 0, 0, 73, 206, 200, 16, 0, 0, 0, 0, 74,
    227, 163, 16, 0, 0, 0, 0, 75, 174, 170, 16, 0, 0, 0, 0, 76, 204, 191, 144, 0, 0, 0, 0, 77, 142,
    140, 16, 0, 0, 0, 0, 78, 172, 161, 144, 0, 0, 0, 0, 79, 110, 110, 16, 0, 0, 0, 0, 80, 140, 131,
    144, 0, 0, 0, 0, 81, 87, 138, 144, 0, 0, 0, 0, 82, 108, 101, 144, 0, 0, 0, 0, 83, 55, 108, 144,
    0, 0, 0, 0, 84, 76, 71, 144, 0, 0, 0, 0, 85, 23, 78, 144, 0, 0, 0, 0, 86, 44, 41, 144, 0, 0, 0,
    0, 86, 247, 48, 144, 0, 0, 0, 0, 88, 21, 70, 16, 0, 0, 0, 0, 88, 215, 18, 144, 0, 0, 0, 0, 89,
    245, 40, 16, 0, 0, 0, 0, 90, 182, 244, 144, 0, 0, 0, 0, 91, 213, 10, 16, 0, 0, 0, 0, 92, 160,
    17, 16, 0, 0, 0, 0, 93, 180, 236, 16, 0, 0, 0, 0, 94, 127, 243, 16, 0, 0, 0, 0, 95, 148, 206,
    16, 0, 0, 0, 0, 96, 95, 213, 16, 0, 0, 0, 0, 97, 125, 234, 144, 0, 0, 0, 0, 98, 63, 183, 16, 0,
    0, 0, 0, 99, 93, 204, 144, 0, 0, 0, 0, 100, 31, 153, 16, 0, 0, 0, 0, 101, 61, 174, 144, 0, 0, 0,
    0, 102, 8, 181, 144, 0, 0, 0, 0, 103, 29, 144, 144, 0, 0, 0, 0, 103, 232, 151, 144, 0, 0, 0, 0,
    104, 253, 114, 144, 0, 0, 0, 0, 105, 200, 121, 144, 0, 0, 0, 0, 106, 221, 84, 144, 0, 0, 0, 0,
    107, 168, 91, 144, 0, 0, 0, 0, 108, 198, 113, 16, 0, 0, 0, 0, 109, 136, 61, 144, 0, 0, 0, 0,
    110, 166, 83, 16, 0, 0, 0, 0, 111, 104, 31, 144, 0, 0, 0, 0, 112, 134, 53, 16, 0, 0, 0, 0, 113,
    81, 60, 16, 0, 0, 0, 0, 114, 102, 23, 16, 0, 0, 0, 0, 115, 49, 30, 16, 0, 0, 0, 0, 116, 69, 249,
    16, 0, 0, 0, 0, 117, 17, 0, 16, 0, 0, 0, 0, 118, 47, 21, 144, 0, 0, 0, 0, 118, 240, 226, 16, 0,
    0, 0, 0, 120, 14, 247, 144, 0, 0, 0, 0, 120, 208, 196, 16, 0, 0, 0, 0, 121, 238, 217, 144, 0, 0,
    0, 0, 122, 176, 166, 16, 0, 0, 0, 0, 123, 206, 187, 144, 0, 0, 0, 0, 124, 153, 194, 144, 0, 0,
    0, 0, 125, 174, 157, 144, 0, 0, 0, 0, 126, 121, 164, 144, 0, 0, 0, 0, 127, 142, 127, 144, 1, 2,
    4, 3, 4, 3, 4, 3, 4, 3, 4, 3, 4, 5, 4, 5, 4, 5, 4, 5, 4, 5, 4, 5, 4, 5, 4, 5, 4, 5, 4, 5, 4, 5,
    4, 5, 4, 5, 4, 5, 4, 5, 4, 5, 4, 5, 4, 5, 4, 5, 4, 5, 4, 5, 4, 5, 4, 5, 4, 5, 4, 5, 4, 5, 4, 5,
    4, 5, 4, 5, 4, 5, 4, 5, 4, 5, 4, 5, 4, 5, 4, 5, 4, 5, 4, 5, 4, 5, 4, 5, 4, 5, 4, 5, 8, 6, 7, 6,
    7, 6, 7, 6, 7, 6, 7, 6, 7, 6, 7, 6, 7, 6, 7, 6, 7, 6, 7, 6, 7, 6, 7, 6, 7, 6, 7, 6, 7, 6, 7, 6,
    7, 6, 7, 6, 7, 6, 7, 6, 7, 6, 7, 6, 7, 6, 7, 6, 7, 6, 7, 6, 7, 6, 7, 6, 7, 6, 7, 6, 7, 6, 7, 6,
    7, 6, 7, 6, 7, 6, 7, 6, 7, 6, 7, 6, 7, 6, 7, 6, 7, 6, 7, 6, 7, 6, 7, 6, 7, 6, 7, 6, 7, 6, 7, 6,
    7, 6, 7, 6, 7, 6, 7, 6, 7, 6, 7, 6, 7, 6, 7, 6, 7, 6, 7, 6, 7, 6, 7, 6, 7, 6, 7, 6, 7, 6, 7, 6,
    7, 6, 255, 255, 250, 15, 0, 0, 255, 255, 250, 15, 0, 4, 0, 0, 8, 31, 1, 8, 0, 0, 14, 16, 1, 12,
    0, 0, 0, 0, 0, 16, 0, 0, 14, 16, 1, 8, 0, 0, 0, 0, 1, 16, 0, 0, 14, 16, 0, 8, 0, 0, 14, 16, 0,
    8, 76, 77, 84, 0, 68, 77, 84, 0, 73, 83, 84, 0, 66, 83, 84, 0, 71, 77, 84, 0, 0, 0, 1, 1, 1, 1,
    1, 1, 0, 0, 0, 0, 0, 0, 0, 1, 1, 0, 10, 73, 83, 84, 45, 49, 71, 77, 84, 48, 44, 77, 49, 48, 46,
    53, 46, 48, 44, 77, 51, 46, 53, 46, 48, 47, 49, 10
];

const EUROPE_LISBON: [u8; 3527] = [
    84, 90, 105, 102, 50, 0, 0, 0, 0, 0, 0, 0, 0, 0, 0, 0, 0, 0, 0, 0, 0, 0, 0, 13, 0, 0, 0, 13, 0,
    0, 0, 0, 0, 0, 0, 225, 0, 0, 0, 13, 0, 0, 0, 27, 128, 0, 0, 0, 146, 230, 142, 128, 155, 75, 109,
    112, 155, 254, 199, 128, 156, 156, 251, 128, 157, 201, 131, 112, 158, 126, 47, 0, 159, 170, 182,
    240, 160, 95, 98, 128, 161, 139, 234, 112, 162, 65, 231, 128, 163, 110, 111, 112, 164, 35, 27,
    0, 165, 79, 162, 240, 170, 5, 239, 112, 170, 231, 95, 240, 173, 201, 167, 240, 174, 167, 35,
    240, 175, 160, 79, 112, 176, 135, 5, 240, 177, 137, 107, 240, 178, 112, 34, 112, 179, 114, 136,
    112, 180, 80, 4, 112, 183, 50, 76, 112, 184, 15, 200, 112, 184, 255, 185, 112, 185, 239, 170,
    112, 188, 200, 183, 240, 189, 184, 168, 240, 190, 159, 95, 112, 191, 152, 138, 240, 192, 154,
    240, 240, 193, 120, 108, 240, 194, 104, 93, 240, 195, 88, 78, 240, 196, 63, 5, 112, 197, 56, 48,
    240, 198, 58, 150, 240, 199, 88, 172, 112, 199, 217, 223, 112, 201, 3, 210, 112, 201, 241, 32,
    112, 202, 226, 98, 240, 203, 181, 82, 240, 203, 236, 163, 224, 204, 128, 75, 224, 204, 220, 162,
    240, 205, 149, 52, 240, 205, 195, 75, 96, 206, 114, 162, 224, 206, 197, 191, 112, 207, 117, 22,
    240, 207, 172, 103, 224, 208, 82, 132, 224, 208, 165, 161, 112, 209, 84, 248, 240, 209, 140, 73,
    224, 210, 50, 102, 224, 210, 133, 131, 112, 211, 89, 196, 240, 212, 73, 181, 240, 213, 57, 209,
    32, 214, 41, 194, 32, 215, 25, 179, 32, 216, 9, 164, 32, 216, 249, 149, 32, 217, 233, 134, 32,
    218, 217, 119, 32, 219, 201, 104, 32, 220, 185, 89, 32, 221, 178, 132, 160, 222, 162, 117, 160,
    223, 146, 102, 160, 224, 130, 87, 160, 225, 114, 72, 160, 226, 98, 57, 160, 227, 82, 42, 160,
    228, 66, 27, 160, 229, 50, 12, 160, 230, 33, 253, 160, 231, 27, 41, 32, 232, 11, 26, 32, 232,
    251, 11, 32, 233, 234, 252, 32, 234, 218, 237, 32, 235, 202, 222, 32, 236, 186, 207, 32, 237,
    170, 192, 32, 238, 154, 177, 32, 239, 138, 162, 32, 240, 122, 147, 32, 241, 106, 132, 32, 242,
    99, 175, 160, 243, 83, 160, 160, 244, 67, 145, 160, 245, 51, 130, 160, 246, 35, 115, 160, 247,
    19, 100, 160, 248, 3, 85, 160, 248, 243, 70, 160, 249, 227, 55, 160, 12, 171, 42, 0, 13, 155,
    27, 0, 14, 139, 12, 0, 15, 132, 69, 144, 16, 116, 54, 144, 17, 100, 39, 144, 18, 84, 24, 144,
    19, 77, 68, 16, 20, 51, 250, 144, 21, 35, 221, 128, 22, 19, 206, 128, 23, 3, 191, 128, 23, 243,
    176, 128, 24, 227, 161, 128, 25, 211, 146, 128, 26, 195, 131, 128, 27, 188, 175, 0, 28, 172,
    160, 0, 29, 156, 145, 0, 30, 140, 144, 16, 31, 124, 129, 16, 32, 108, 114, 16, 33, 92, 99, 16,
    34, 76, 84, 16, 35, 60, 69, 16, 36, 44, 54, 16, 37, 28, 39, 16, 38, 12, 24, 16, 39, 5, 67, 144,
    39, 245, 52, 144, 40, 229, 37, 144, 41, 213, 22, 144, 42, 197, 7, 144, 43, 180, 248, 144, 44,
    164, 233, 144, 45, 148, 218, 144, 46, 132, 203, 144, 47, 116, 188, 144, 48, 100, 173, 144, 49,
    93, 217, 16, 50, 114, 180, 16, 51, 61, 187, 16, 52, 82, 150, 16, 53, 29, 157, 16, 54, 50, 120,
    16, 54, 253, 127, 16, 56, 27, 148, 144, 56, 221, 97, 16, 57, 251, 118, 144, 58, 189, 67, 16, 59,
    219, 88, 144, 60, 166, 95, 144, 61, 187, 58, 144, 62, 134, 65, 144, 63, 155, 28, 144, 64, 102,
    35, 144, 65, 132, 57, 16, 66, 70, 5, 144, 67, 100, 27, 16, 68, 37, 231, 144, 69, 67, 253, 16,
    70, 5, 201, 144, 71, 35, 223, 16, 71, 238, 230, 16, 73, 3, 193, 16, 73, 206, 200, 16, 74, 227,
    163, 16, 75, 174, 170, 16, 76, 204, 191, 144, 77, 142, 140, 16, 78, 172, 161, 144, 79, 110, 110,
    16, 80, 140, 131, 144, 81, 87, 138, 144, 82, 108, 101, 144, 83, 55, 108, 144, 84, 76, 71, 144,
    85, 23, 78, 144, 86, 44, 41, 144, 86, 247, 48, 144, 88, 21, 70, 16, 88, 215, 18, 144, 89, 245,
    40, 16, 90, 182, 244, 144, 91, 213, 10, 16, 92, 160, 17, 16, 93, 180, 236, 16, 94, 127, 243, 16,
    95, 148, 206, 16, 96, 95, 213, 16, 97, 125, 234, 144, 98, 63, 183, 16, 99, 93, 204, 144, 100,
    31, 153, 16, 101, 61, 174, 144, 102, 8, 181, 144, 103, 29, 144, 144, 103, 232, 151, 144, 104,
    253, 114, 144, 105, 200, 121, 144, 106, 221, 84, 144, 107, 168, 91, 144, 108, 198, 113, 16, 109,
    136, 61, 144, 110, 166, 83, 16, 111, 104, 31, 144, 112, 134, 53, 16, 113, 81, 60, 16, 114, 102,
    23, 16, 115, 49, 30, 16, 116, 69, 249, 16, 117, 17, 0, 16, 118, 47, 21, 144, 118, 240, 226, 16,
    120, 14, 247, 144, 120, 208, 196, 16, 121, 238, 217, 144, 122, 176, 166, 16, 123, 206, 187, 144,
    124, 153, 194, 144, 125, 174, 157, 144, 126, 121, 164, 144, 127, 142, 127, 144, 0, 6, 1, 2, 1,
    2, 1, 2, 1, 2, 1, 2, 1, 2, 3, 4, 3, 4, 3, 4, 3, 4, 3, 4, 3, 4, 3, 4, 3, 4, 3, 4, 3, 4, 3, 4, 3,
    4, 3, 4, 3, 4, 3, 4, 3, 5, 3, 4, 3, 5, 3, 4, 3, 5, 3, 4, 3, 5, 3, 4, 3, 4, 3, 4, 3, 4, 3, 4, 3,
    4, 3, 4, 3, 4, 3, 4, 3, 4, 3, 4, 3, 4, 3, 4, 3, 4, 3, 4, 3, 4, 3, 4, 3, 4, 3, 4, 3, 4, 3, 4, 3,
    7, 2, 3, 4, 3, 4, 3, 4, 3, 4, 3, 4, 3, 4, 3, 4, 3, 4, 3, 4, 8, 6, 8, 6, 8, 6, 8, 6, 8, 6, 8, 6,
    8, 9, 10, 9, 10, 9, 10, 9, 8, 6, 8, 6, 8, 6, 8, 6, 8, 6, 8, 6, 8, 6, 8, 6, 8, 6, 8, 6, 8, 6, 8,
    6, 8, 6, 8, 6, 8, 6, 8, 6, 8, 6, 8, 6, 8, 6, 8, 6, 8, 6, 8, 6, 8, 6, 8, 6, 8, 6, 8, 6, 8, 6, 8,
    6, 8, 6, 8, 6, 8, 6, 8, 6, 8, 6, 8, 6, 8, 6, 8, 6, 8, 6, 8, 6, 8, 6, 8, 6, 8, 6, 8, 6, 255, 255,
    247, 99, 0, 0, 0, 0, 14, 16, 1, 4, 0, 0, 0, 0, 0, 9, 0, 0, 14, 16, 1, 4, 0, 0, 0, 0, 0, 9, 0, 0,
    28, 32, 1, 13, 0, 0, 0, 0, 0, 9, 0, 0, 14, 16, 0, 18, 0, 0, 14, 16, 1, 4, 0, 0, 14, 16, 0, 18,
    0, 0, 28, 32, 1, 22, 0, 0, 14, 16, 1, 4, 0, 0, 0, 0, 0, 9, 76, 77, 84, 0, 87, 69, 83, 84, 0, 87,
    69, 84, 0, 87, 69, 77, 84, 0, 67, 69, 84, 0, 67, 69, 83, 84, 0, 0, 0, 0, 1, 1, 1, 1, 1, 1, 1, 1,
    1, 1, 0, 0, 0, 0, 0, 0, 1, 0, 1, 1, 1, 1, 1, 84, 90, 105, 102, 50, 0, 0, 0, 0, 0, 0, 0, 0, 0, 0,
    0, 0, 0, 0, 0, 0, 0, 0, 13, 0, 0, 0, 13, 0, 0, 0, 0, 0, 0, 0, 225, 0, 0, 0, 13, 0, 0, 0, 27,
    255, 255, 255, 255, 94, 61, 12, 29, 255, 255, 255, 255, 146, 230, 142, 128, 255, 255, 255, 255,
    155, 75, 109, 112, 255, 255, 255, 255, 155, 254, 199, 128, 255, 255, 255, 255, 156, 156, 251,
    128, 255, 255, 255, 255, 157, 201, 131, 112, 255, 255, 255, 255, 158, 126, 47, 0, 255, 255, 255,
    255, 159, 170, 182, 240, 255, 255, 255, 255, 160, 95, 98, 128, 255, 255, 255, 255, 161, 139,
    234, 112, 255, 255, 255, 255, 162, 65, 231, 128, 255, 255, 255, 255, 163, 110, 111, 112, 255,
    255, 255, 255, 164, 35, 27, 0, 255, 255, 255, 255, 165, 79, 162, 240, 255, 255, 255, 255, 170,
    5, 239, 112, 255, 255, 255, 255, 170, 231, 95, 240, 255, 255, 255, 255, 173, 201, 167, 240, 255,
    255, 255, 255, 174, 167, 35, 240, 255, 255, 255, 255, 175, 160, 79, 112, 255, 255, 255, 255,
    176, 135, 5, 240, 255, 255, 255, 255, 177, 137, 107, 240, 255, 255, 255, 255, 178, 112, 34, 112,
    255, 255, 255, 255, 179, 114, 136, 112, 255, 255, 255, 255, 180, 80, 4, 112, 255, 255, 255, 255,
    183, 50, 76, 112, 255, 255, 255, 255, 184, 15, 200, 112, 255, 255, 255, 255, 184, 255, 185, 112,
    255, 255, 255, 255, 185, 239, 170, 112, 255, 255, 255, 255, 188, 200, 183, 240, 255, 255, 255,
    255, 189, 184, 168, 240, 255, 255, 255, 255, 190, 159, 95, 112, 255, 255, 255, 255, 191, 152,
    138, 240, 255, 255, 255, 255, 192, 154, 240, 240, 255, 255, 255, 255, 193, 120, 108, 240, 255,
    255, 255, 255, 194, 104, 93, 240, 255, 255, 255, 255, 195, 88, 78, 240, 255, 255, 255, 255, 196,
    63, 5, 112, 255, 255, 255, 255, 197, 56, 48, 240, 255, 255, 255, 255, 198, 58, 150, 240, 255,
    255, 255, 255, 199, 88, 172, 112, 255, 255, 255, 255, 199, 217, 223, 112, 255, 255, 255, 255,
    201, 3, 210, 112, 255, 255, 255, 255, 201, 241, 32, 112, 255, 255, 255, 255, 202, 226, 98, 240,
    255, 255, 255, 255, 203, 181, 82, 240, 255, 255, 255, 255, 203, 236, 163, 224, 255, 255, 255,
    255, 204, 128, 75, 224, 255, 255, 255, 255, 204, 220, 162, 240, 255, 255, 255, 255, 205, 149,
    52, 240, 255, 255, 255, 255, 205, 195, 75, 96, 255, 255, 255, 255, 206, 114, 162, 224, 255, 255,
    255, 255, 206, 197, 191, 112, 255, 255, 255, 255, 207, 117, 22, 240, 255, 255, 255, 255, 207,
    172, 103, 224, 255, 255, 255, 255, 208, 82, 132, 224, 255, 255, 255, 255, 208, 165, 161, 112,
    255, 255, 255, 255, 209, 84, 248, 240, 255, 255, 255, 255, 209, 140, 73, 224, 255, 255, 255,
    255, 210, 50, 102, 224, 255, 255, 255, 255, 210, 133, 131, 112, 255, 255, 255, 255, 211, 89,
    196, 240, 255, 255, 255, 255, 212, 73, 181, 240, 255, 255, 255, 255, 213, 57, 209, 32, 255, 255,
    255, 255, 214, 41, 194, 32, 255, 255, 255, 255, 215, 25, 179, 32, 255, 255, 255, 255, 216, 9,
    164, 32, 255, 255, 255, 255, 216, 249, 149, 32, 255, 255, 255, 255, 217, 233, 134, 32, 255, 255,
    255, 255, 218, 217, 119, 32, 255, 255, 255, 255, 219, 201, 104, 32, 255, 255, 255, 255, 220,
    185, 89, 32, 255, 255, 255, 255, 221, 178, 132, 160, 255, 255, 255, 255, 222, 162, 117, 160,
    255, 255, 255, 255, 223, 146, 102, 160, 255, 255, 255, 255, 224, 130, 87, 160, 255, 255, 255,
    255, 225, 114, 72, 160, 255, 255, 255, 255, 226, 98, 57, 160, 255, 255, 255, 255, 227, 82, 42,
    160, 255, 255, 255, 255, 228, 66, 27, 160, 255, 255, 255, 255, 229, 50, 12, 160, 255, 255, 255,
    255, 230, 33, 253, 160, 255, 255, 255, 255, 231, 27, 41, 32, 255, 255, 255, 255, 232, 11, 26,
    32, 255, 255, 255, 255, 232, 251, 11, 32, 255, 255, 255, 255, 233, 234, 252, 32, 255, 255, 255,
    255, 234, 218, 237, 32, 255, 255, 255, 255, 235, 202, 222, 32, 255, 255, 255, 255, 236, 186,
    207, 32, 255, 255, 255, 255, 237, 170, 192, 32, 255, 255, 255, 255, 238, 154, 177, 32, 255, 255,
    255, 255, 239, 138, 162, 32, 255, 255, 255, 255, 240, 122, 147, 32, 255, 255, 255, 255, 241,
    106, 132, 32, 255, 255, 255, 255, 242, 99, 175, 160, 255, 255, 255, 255, 243, 83, 160, 160, 255,
    255, 255, 255, 244, 67, 145, 160, 255, 255, 255, 255, 245, 51, 130, 160, 255, 255, 255, 255,
    246, 35, 115, 160, 255, 255, 255, 255, 247, 19, 100, 160, 255, 255, 255, 255, 248, 3, 85, 160,
    255, 255, 255, 255, 248, 243, 70, 160, 255, 255, 255, 255, 249, 227, 55, 160, 0, 0, 0, 0, 12,
    171, 42, 0, 0, 0, 0, 0, 13, 155, 27, 0, 0, 0, 0, 0, 14, 139, 12, 0, 0, 0, 0, 0, 15, 132, 69,
    144, 0, 0, 0, 0, 16, 116, 54, 144, 0, 0, 0, 0, 17, 100, 39, 144, 0, 0, 0, 0, 18, 84, 24, 144, 0,
    0, 0, 0, 19, 77, 68, 16, 0, 0, 0, 0, 20, 51, 250, 144, 0, 0, 0, 0, 21, 35, 221, 128, 0, 0, 0, 0,
    22, 19, 206, 128, 0, 0, 0, 0, 23, 3, 191, 128, 0, 0, 0, 0, 23, 243, 176, 128, 0, 0, 0, 0, 24,
    227, 161, 128, 0, 0, 0, 0, 25, 211, 146, 128, 0, 0, 0, 0, 26, 195, 131, 128, 0, 0, 0, 0, 27,
    188, 175, 0, 0, 0, 0, 0, 28, 172, 160, 0, 0, 0, 0, 0, 29, 156, 145, 0, 0, 0, 0, 0, 30, 140, 144,
    16, 0, 0, 0, 0, 31, 124, 129, 16, 0, 0, 0, 0, 32, 108, 114, 16, 0, 0, 0, 0, 33, 92, 99, 16, 0,
    0, 0, 0, 34, 76, 84, 16, 0, 0, 0, 0, 35, 60, 69, 16, 0, 0, 0, 0, 36, 44, 54, 16, 0, 0, 0, 0, 37,
    28, 39, 16, 0, 0, 0, 0, 38, 12, 24, 16, 0, 0, 0, 0, 39, 5, 67, 144, 0, 0, 0, 0, 39, 245, 52,
    144, 0, 0, 0, 0, 40, 229, 37, 144, 0, 0, 0, 0, 41, 213, 22, 144, 0, 0, 0, 0, 42, 197, 7, 144, 0,
    0, 0, 0, 43, 180, 248, 144, 0, 0, 0, 0, 44, 164, 233, 144, 0, 0, 0, 0, 45, 148, 218, 144, 0, 0,
    0, 0, 46, 132, 203, 144, 0, 0, 0, 0, 47, 116, 188, 144, 0, 0, 0, 0, 48, 100, 173, 144, 0, 0, 0,
    0, 49, 93, 217, 16, 0, 0, 0, 0, 50, 114, 180, 16, 0, 0, 0, 0, 51, 61, 187, 16, 0, 0, 0, 0, 52,
    82, 150, 16, 0, 0, 0, 0, 53, 29, 157, 16, 0, 0, 0, 0, 54, 50, 120, 16, 0, 0, 0, 0, 54, 253, 127,
    16, 0, 0, 0, 0, 56, 27, 148, 144, 0, 0, 0, 0, 56, 221, 97, 16, 0, 0, 0, 0, 57, 251, 118, 144, 0,
    0, 0, 0, 58, 189, 67, 16, 0, 0, 0, 0, 59, 219, 88, 144, 0, 0, 0, 0, 60, 166, 95, 144, 0, 0, 0,
    0, 61, 187, 58, 144, 0, 0, 0, 0, 62, 134, 65, 144, 0, 0, 0, 0, 63, 155, 28, 144, 0, 0, 0, 0, 64,
    102, 35, 144, 0, 0, 0, 0, 65, 132, 57, 16, 0, 0, 0, 0, 66, 70, 5, 144, 0, 0, 0, 0, 67, 100, 27,
    16, 0, 0, 0, 0, 68, 37, 231, 144, 0, 0, 0, 0, 69, 67, 253, 16, 0, 0, 0, 0, 70, 5, 201, 144, 0,
    0, 0, 0, 71, 35, 223, 16, 0, 0, 0, 0, 71, 238, 230, 16, 0, 0, 0, 0, 73, 3, 193, 16, 0, 0, 0, 0,
    73, 206, 200, 16, 0, 0, 0, 0, 74, 227, 163, 16, 0, 0, 0, 0, 75, 174, 170, 16, 0, 0, 0, 0, 76,
    204, 191, 144, 0, 0, 0, 0, 77, 142, 140, 16, 0, 0, 0, 0, 78, 172, 161, 144, 0, 0, 0, 0, 79, 110,
    110, 16, 0, 0, 0, 0, 80, 140, 131, 144, 0, 0, 0, 0, 81, 87, 138, 144, 0, 0, 0, 0, 82, 108, 101,
    144, 0, 0, 0, 0, 83, 55, 108, 144, 0, 0, 0, 0, 84, 76, 71, 144, 0, 0, 0, 0, 85, 23, 78, 144, 0,
    0, 0, 0, 86, 44, 41, 144, 0, 0, 0, 0, 86, 247, 48, 144, 0, 0, 0, 0, 88, 21, 70, 16, 0, 0, 0, 0,
    88, 215, 18, 144, 0, 0, 0, 0, 89, 245, 40, 16, 0, 0, 0, 0, 90, 182, 244, 144, 0, 0, 0, 0, 91,
    213, 10, 16, 0, 0, 0, 0, 92, 160, 17, 16, 0, 0, 0, 0, 93, 180, 236, 16, 0, 0, 0, 0, 94, 127,
    243, 16, 0, 0, 0, 0, 95, 148, 206, 16, 0, 0, 0, 0, 96, 95, 213, 16, 0, 0, 0, 0, 97, 125, 234,
    144, 0, 0, 0, 0, 98, 63, 183, 16, 0, 0, 0, 0, 99, 93, 204, 144, 0, 0, 0, 0, 100, 31, 153, 16, 0,
    0, 0, 0, 101, 61, 174, 144, 0, 0, 0, 0, 102, 8, 181, 144, 0, 0, 0, 0, 103, 29, 144, 144, 0, 0,
    0, 0, 103, 232, 151, 144, 0, 0, 0, 0, 104, 253, 114, 144, 0, 0, 0, 0, 105, 200, 121, 144, 0, 0,
    0, 0, 106, 221, 84, 144, 0, 0, 0, 0, 107, 168, 91, 144, 0, 0, 0, 0, 108, 198, 113, 16, 0, 0, 0,
    0, 109, 136, 61, 144, 0, 0, 0, 0, 110, 166, 83, 16, 0, 0, 0, 0, 111, 104, 31, 144, 0, 0, 0, 0,
    112, 134, 53, 16, 0, 0, 0, 0, 113, 81, 60, 16, 0, 0, 0, 0, 114, 102, 23, 16, 0, 0, 0, 0, 115,
    49, 30, 16, 0, 0, 0, 0, 116, 69, 249, 16, 0, 0, 0, 0, 117, 17, 0, 16, 0, 0, 0, 0, 118, 47, 21,
    144, 0, 0, 0, 0, 118, 240, 226, 16, 0, 0, 0, 0, 120, 14, 247, 144, 0, 0, 0, 0, 120, 208, 196,
    16, 0, 0, 0, 0, 121, 238, 217, 144, 0, 0, 0, 0, 122, 176, 166, 16, 0, 0, 0, 0, 123, 206, 187,
    144, 0, 0, 0, 0, 124, 153, 194, 144, 0, 0, 0, 0, 125, 174, 157, 144, 0, 0, 0, 0, 126, 121, 164,
    144, 0, 0, 0, 0, 127, 142, 127, 144, 0, 6, 1, 2, 1, 2, 1, 2, 1, 2, 1, 2, 1, 2, 3, 4, 3, 4, 3, 4,
    3, 4, 3, 4, 3, 4, 3, 4, 3, 4, 3, 4, 3, 4, 3, 4, 3, 4, 3, 4, 3, 4, 3, 4, 3, 5, 3, 4, 3, 5, 3, 4,
    3, 5, 3, 4, 3, 5, 3, 4, 3, 4, 3, 4, 3, 4, 3, 4, 3, 4, 3, 4, 3, 4, 3, 4, 3, 4, 3, 4, 3, 4, 3, 4,
    3, 4, 3, 4, 3, 4, 3, 4, 3, 4, 3, 4, 3, 4, 3, 4, 3, 7, 2, 3, 4, 3, 4, 3, 4, 3, 4, 3, 4, 3, 4, 3,
    4, 3, 4, 3, 4, 8, 6, 8, 6, 8, 6, 8, 6, 8, 6, 8, 6, 8, 9, 10, 9, 10, 9, 10, 9, 8, 6, 8, 6, 8, 6,
    8, 6, 8, 6, 8, 6, 8, 6, 8, 6, 8, 6, 8, 6, 8, 6, 8, 6, 8, 6, 8, 6, 8, 6, 8, 6, 8, 6, 8, 6, 8, 6,
    8, 6, 8, 6, 8, 6, 8, 6, 8, 6, 8, 6, 8, 6, 8, 6, 8, 6, 8, 6, 8, 6, 8, 6, 8, 6, 8, 6, 8, 6, 8, 6,
    8, 6, 8, 6, 8, 6, 8, 6, 8, 6, 8, 6, 8, 6, 255, 255, 247, 99, 0, 0, 0, 0, 14, 16, 1, 4, 0, 0, 0,
    0, 0, 9, 0, 0, 14, 16, 1, 4, 0, 0, 0, 0, 0, 9, 0, 0, 28, 32, 1, 13, 0, 0, 0, 0, 0, 9, 0, 0, 14,
    16, 0, 18, 0, 0, 14, 16, 1, 4, 0, 0, 14, 16, 0, 18, 0, 0, 28, 32, 1, 22, 0, 0, 14, 16, 1, 4, 0,
    0, 0, 0, 0, 9, 76, 77, 84, 0, 87, 69, 83, 84, 0, 87, 69, 84, 0, 87, 69, 77, 84, 0, 67, 69, 84,
    0, 67, 69, 83, 84, 0, 0, 0, 0, 1, 1, 1, 1, 1, 1, 1, 1, 1, 1, 0, 0, 0, 0, 0, 0, 1, 0, 1, 1, 1, 1,
    1, 10, 87, 69, 84, 48, 87, 69, 83, 84, 44, 77, 51, 46, 53, 46, 48, 47, 49, 44, 77, 49, 48, 46,
    53, 46, 48, 10
];

const EUROPE_LONDON: [u8; 3664] = [
    84, 90, 105, 102, 50, 0, 0, 0, 0, 0, 0, 0, 0, 0, 0, 0, 0, 0, 0, 0, 0, 0, 0, 8, 0, 0, 0, 8, 0, 0,
    0, 0, 0, 0, 0, 242, 0, 0, 0, 8, 0, 0, 0, 17, 128, 0, 0, 0, 155, 38, 173, 160, 155, 214, 5, 32,
    156, 207, 48, 160, 157, 164, 195, 160, 158, 156, 157, 160, 159, 151, 26, 160, 160, 133, 186, 32,
    161, 118, 252, 160, 162, 101, 156, 32, 163, 123, 200, 160, 164, 78, 184, 160, 165, 63, 251, 32,
    166, 37, 96, 32, 167, 39, 198, 32, 168, 42, 44, 32, 168, 235, 248, 160, 170, 0, 211, 160, 170,
    213, 21, 32, 171, 233, 240, 32, 172, 199, 108, 32, 173, 201, 210, 32, 174, 167, 78, 32, 175,
    160, 121, 160, 176, 135, 48, 32, 177, 146, 208, 160, 178, 112, 76, 160, 179, 114, 178, 160, 180,
    80, 46, 160, 181, 73, 90, 32, 182, 48, 16, 160, 183, 50, 118, 160, 184, 15, 242, 160, 185, 18,
    88, 160, 185, 239, 212, 160, 186, 233, 0, 32, 187, 216, 241, 32, 188, 219, 87, 32, 189, 184,
    211, 32, 190, 177, 254, 160, 191, 152, 181, 32, 192, 155, 27, 32, 193, 120, 151, 32, 194, 122,
    253, 32, 195, 88, 121, 32, 196, 81, 164, 160, 197, 56, 91, 32, 198, 58, 193, 32, 199, 88, 214,
    160, 199, 218, 9, 160, 202, 22, 38, 144, 202, 151, 89, 144, 203, 209, 30, 144, 204, 119, 59,
    144, 205, 177, 0, 144, 206, 96, 88, 16, 207, 144, 226, 144, 208, 110, 94, 144, 209, 114, 22, 16,
    209, 251, 50, 16, 210, 105, 254, 32, 211, 99, 41, 160, 212, 73, 224, 32, 213, 30, 33, 160, 213,
    66, 253, 144, 213, 223, 224, 16, 214, 78, 172, 32, 214, 254, 3, 160, 216, 46, 142, 32, 216, 249,
    149, 32, 218, 14, 112, 32, 218, 235, 236, 32, 219, 229, 23, 160, 220, 203, 206, 32, 221, 196,
    249, 160, 222, 180, 234, 160, 223, 174, 22, 32, 224, 148, 204, 160, 225, 114, 72, 160, 226, 107,
    116, 32, 227, 82, 42, 160, 228, 84, 144, 160, 229, 50, 12, 160, 230, 61, 173, 32, 231, 27, 41,
    32, 232, 20, 84, 160, 232, 251, 11, 32, 233, 253, 113, 32, 234, 218, 237, 32, 235, 221, 83, 32,
    236, 186, 207, 32, 237, 179, 250, 160, 238, 154, 177, 32, 239, 129, 103, 160, 240, 159, 125, 32,
    241, 97, 73, 160, 242, 127, 95, 32, 243, 74, 102, 32, 244, 95, 65, 32, 245, 33, 13, 160, 246,
    63, 35, 32, 247, 0, 239, 160, 248, 31, 5, 32, 248, 224, 209, 160, 249, 254, 231, 32, 250, 192,
    179, 160, 251, 232, 3, 160, 252, 123, 171, 160, 253, 199, 187, 112, 3, 112, 198, 32, 4, 41, 88,
    32, 5, 80, 168, 32, 6, 9, 58, 32, 7, 48, 138, 32, 7, 233, 28, 32, 9, 16, 108, 32, 9, 200, 254,
    32, 10, 240, 78, 32, 11, 178, 26, 160, 12, 208, 48, 32, 13, 145, 252, 160, 14, 176, 18, 32, 15,
    113, 222, 160, 16, 153, 46, 160, 17, 81, 192, 160, 18, 121, 16, 160, 19, 49, 162, 160, 20, 88,
    242, 160, 21, 35, 235, 144, 22, 56, 198, 144, 23, 3, 205, 144, 24, 24, 168, 144, 24, 227, 175,
    144, 25, 248, 138, 144, 26, 195, 145, 144, 27, 225, 167, 16, 28, 172, 174, 16, 29, 193, 137, 16,
    30, 140, 144, 16, 31, 161, 107, 16, 32, 108, 114, 16, 33, 129, 77, 16, 34, 76, 84, 16, 35, 97,
    47, 16, 36, 44, 54, 16, 37, 74, 75, 144, 38, 12, 24, 16, 39, 42, 45, 144, 39, 245, 52, 144, 41,
    10, 15, 144, 41, 213, 22, 144, 42, 233, 241, 144, 43, 180, 248, 144, 44, 201, 211, 144, 45, 148,
    218, 144, 46, 169, 181, 144, 47, 116, 188, 144, 48, 137, 151, 144, 49, 93, 217, 16, 50, 114,
    180, 16, 51, 61, 187, 16, 52, 82, 150, 16, 53, 29, 157, 16, 54, 50, 120, 16, 54, 253, 127, 16,
    56, 27, 148, 144, 56, 221, 97, 16, 57, 251, 118, 144, 58, 189, 67, 16, 59, 219, 88, 144, 60,
    166, 95, 144, 61, 187, 58, 144, 62, 134, 65, 144, 63, 155, 28, 144, 64, 102, 35, 144, 65, 132,
    57, 16, 66, 70, 5, 144, 67, 100, 27, 16, 68, 37, 231, 144, 69, 67, 253, 16, 70, 5, 201, 144, 71,
    35, 223, 16, 71, 238, 230, 16, 73, 3, 193, 16, 73, 206, 200, 16, 74, 227, 163, 16, 75, 174, 170,
    16, 76, 204, 191, 144, 77, 142, 140, 16, 78, 172, 161, 144, 79, 110, 110, 16, 80, 140, 131, 144,
    81, 87, 138, 144, 82, 108, 101, 144, 83, 55, 108, 144, 84, 76, 71, 144, 85, 23, 78, 144, 86, 44,
    41, 144, 86, 247, 48, 144, 88, 21, 70, 16, 88, 215, 18, 144, 89, 245, 40, 16, 90, 182, 244, 144,
    91, 213, 10, 16, 92, 160, 17, 16, 93, 180, 236, 16, 94, 127, 243, 16, 95, 148, 206, 16, 96, 95,
    213, 16, 97, 125, 234, 144, 98, 63, 183, 16, 99, 93, 204, 144, 100, 31, 153, 16, 101, 61, 174,
    144, 102, 8, 181, 144, 103, 29, 144, 144, 103, 232, 151, 144, 104, 253, 114, 144, 105, 200, 121,
    144, 106, 221, 84, 144, 107, 168, 91, 144, 108, 198, 113, 16, 109, 136, 61, 144, 110, 166, 83,
    16, 111, 104, 31, 144, 112, 134, 53, 16, 113, 81, 60, 16, 114, 102, 23, 16, 115, 49, 30, 16,
    116, 69, 249, 16, 117, 17, 0, 16, 118, 47, 21, 144, 118, 240, 226, 16, 120, 14, 247, 144, 120,
    208, 196, 16, 121, 238, 217, 144, 122, 176, 166, 16, 123, 206, 187, 144, 124, 153, 194, 144,
    125, 174, 157, 144, 126, 121, 164, 144, 127, 142, 127, 144, 4, 1, 2, 1, 2, 1, 2, 1, 2, 1, 2, 1,
    2, 1, 2, 1, 2, 1, 2, 1, 2, 1, 2, 1, 2, 1, 2, 1, 2, 1, 2, 1, 2, 1, 2, 1, 2, 1, 2, 1, 2, 1, 2, 1,
    2, 1, 2, 1, 2, 1, 3, 1, 3, 1, 3, 1, 3, 1, 3, 1, 2, 1, 2, 1, 3, 1, 2, 1, 2, 1, 2, 1, 2, 1, 2, 1,
    2, 1, 2, 1, 2, 1, 2, 1, 2, 1, 2, 1, 2, 1, 2, 1, 2, 1, 2, 1, 2, 1, 2, 1, 2, 1, 2, 1, 2, 1, 2, 1,
    5, 7, 1, 2, 1, 2, 1, 2, 1, 2, 1, 2, 1, 2, 1, 2, 1, 2, 1, 2, 6, 7, 6, 7, 6, 7, 6, 7, 6, 7, 6, 7,
    6, 7, 6, 7, 6, 7, 6, 7, 6, 7, 6, 7, 6, 7, 6, 7, 6, 7, 6, 7, 6, 7, 6, 7, 6, 7, 6, 7, 6, 7, 6, 7,
    6, 7, 6, 7, 6, 7, 6, 7, 6, 7, 6, 7, 6, 7, 6, 7, 6, 7, 6, 7, 6, 7, 6, 7, 6, 7, 6, 7, 6, 7, 6, 7,
    6, 7, 6, 7, 6, 7, 6, 7, 6, 7, 6, 7, 6, 7, 6, 7, 6, 7, 6, 7, 6, 7, 6, 7, 6, 7, 6, 7, 6, 7, 6, 7,
    6, 7, 6, 7, 6, 7, 255, 255, 255, 181, 0, 0, 0, 0, 14, 16, 1, 4, 0, 0, 0, 0, 0, 8, 0, 0, 28, 32,
    1, 12, 0, 0, 0, 0, 0, 8, 0, 0, 14, 16, 0, 4, 0, 0, 14, 16, 1, 4, 0, 0, 0, 0, 0, 8, 76, 77, 84,
    0, 66, 83, 84, 0, 71, 77, 84, 0, 66, 68, 83, 84, 0, 0, 1, 1, 1, 0, 0, 1, 1, 0, 0, 0, 0, 0, 0, 1,
    1, 84, 90, 105, 102, 50, 0, 0, 0, 0, 0, 0, 0, 0, 0, 0, 0, 0, 0, 0, 0, 0, 0, 0, 8, 0, 0, 0, 8, 0,
    0, 0, 0, 0, 0, 0, 242, 0, 0, 0, 8, 0, 0, 0, 17, 255, 255, 255, 255, 26, 93, 9, 203, 255, 255,
    255, 255, 155, 38, 173, 160, 255, 255, 255, 255, 155, 214, 5, 32, 255, 255, 255, 255, 156, 207,
    48, 160, 255, 255, 255, 255, 157, 164, 195, 160, 255, 255, 255, 255, 158, 156, 157, 160, 255,
    255, 255, 255, 159, 151, 26, 160, 255, 255, 255, 255, 160, 133, 186, 32, 255, 255, 255, 255,
    161, 118, 252, 160, 255, 255, 255, 255, 162, 101, 156, 32, 255, 255, 255, 255, 163, 123, 200,
    160, 255, 255, 255, 255, 164, 78, 184, 160, 255, 255, 255, 255, 165, 63, 251, 32, 255, 255, 255,
    255, 166, 37, 96, 32, 255, 255, 255, 255, 167, 39, 198, 32, 255, 255, 255, 255, 168, 42, 44, 32,
    255, 255, 255, 255, 168, 235, 248, 160, 255, 255, 255, 255, 170, 0, 211, 160, 255, 255, 255,
    255, 170, 213, 21, 32, 255, 255, 255, 255, 171, 233, 240, 32, 255, 255, 255, 255, 172, 199, 108,
    32, 255, 255, 255, 255, 173, 201, 210, 32, 255, 255, 255, 255, 174, 167, 78, 32, 255, 255, 255,
    255, 175, 160, 121, 160, 255, 255, 255, 255, 176, 135, 48, 32, 255, 255, 255, 255, 177, 146,
    208, 160, 255, 255, 255, 255, 178, 112, 76, 160, 255, 255, 255, 255, 179, 114, 178, 160, 255,
    255, 255, 255, 180, 80, 46, 160, 255, 255, 255, 255, 181, 73, 90, 32, 255, 255, 255, 255, 182,
    48, 16, 160, 255, 255, 255, 255, 183, 50, 118, 160, 255, 255, 255, 255, 184, 15, 242, 160, 255,
    255, 255, 255, 185, 18, 88, 160, 255, 255, 255, 255, 185, 239, 212, 160, 255, 255, 255, 255,
    186, 233, 0, 32, 255, 255, 255, 255, 187, 216, 241, 32, 255, 255, 255, 255, 188, 219, 87, 32,
    255, 255, 255, 255, 189, 184, 211, 32, 255, 255, 255, 255, 190, 177, 254, 160, 255, 255, 255,
    255, 191, 152, 181, 32, 255, 255, 255, 255, 192, 155, 27, 32, 255, 255, 255, 255, 193, 120, 151,
    32, 255, 255, 255, 255, 194, 122, 253, 32, 255, 255, 255, 255, 195, 88, 121, 32, 255, 255, 255,
    255, 196, 81, 164, 160, 255, 255, 255, 255, 197, 56, 91, 32, 255, 255, 255, 255, 198, 58, 193,
    32, 255, 255, 255, 255, 199, 88, 214, 160, 255, 255, 255, 255, 199, 218, 9, 160, 255, 255, 255,
    255, 202, 22, 38, 144, 255, 255, 255, 255, 202, 151, 89, 144, 255, 255, 255, 255, 203, 209, 30,
    144, 255, 255, 255, 255, 204, 119, 59, 144, 255, 255, 255, 255, 205, 177, 0, 144, 255, 255, 255,
    255, 206, 96, 88, 16, 255, 255, 255, 255, 207, 144, 226, 144, 255, 255, 255, 255, 208, 110, 94,
    144, 255, 255, 255, 255, 209, 114, 22, 16, 255, 255, 255, 255, 209, 251, 50, 16, 255, 255, 255,
    255, 210, 105, 254, 32, 255, 255, 255, 255, 211, 99, 41, 160, 255, 255, 255, 255, 212, 73, 224,
    32, 255, 255, 255, 255, 213, 30, 33, 160, 255, 255, 255, 255, 213, 66, 253, 144, 255, 255, 255,
    255, 213, 223, 224, 16, 255, 255, 255, 255, 214, 78, 172, 32, 255, 255, 255, 255, 214, 254, 3,
    160, 255, 255, 255, 255, 216, 46, 142, 32, 255, 255, 255, 255, 216, 249, 149, 32, 255, 255, 255,
    255, 218, 14, 112, 32, 255, 255, 255, 255, 218, 235, 236, 32, 255, 255, 255, 255, 219, 229, 23,
    160, 255, 255, 255, 255, 220, 203, 206, 32, 255, 255, 255, 255, 221, 196, 249, 160, 255, 255,
    255, 255, 222, 180, 234, 160, 255, 255, 255, 255, 223, 174, 22, 32, 255, 255, 255, 255, 224,
    148, 204, 160, 255, 255, 255, 255, 225, 114, 72, 160, 255, 255, 255, 255, 226, 107, 116, 32,
    255, 255, 255, 255, 227, 82, 42, 160, 255, 255, 255, 255, 228, 84, 144, 160, 255, 255, 255, 255,
    229, 50, 12, 160, 255, 255, 255, 255, 230, 61, 173, 32, 255, 255, 255, 255, 231, 27, 41, 32,
    255, 255, 255, 255, 232, 20, 84, 160, 255, 255, 255, 255, 232, 251, 11, 32, 255, 255, 255, 255,
    233, 253, 113, 32, 255, 255, 255, 255, 234, 218, 237, 32, 255, 255, 255, 255, 235, 221, 83, 32,
    255, 255, 255, 255, 236, 186, 207, 32, 255, 255, 255, 255, 237, 179, 250, 160, 255, 255, 255,
    255, 238, 154, 177, 32, 255, 255, 255, 255, 239, 129, 103, 160, 255, 255, 255, 255, 240, 159,
    125, 32, 255, 255, 255, 255, 241, 97, 73, 160, 255, 255, 255, 255, 242, 127, 95, 32, 255, 255,
    255, 255, 243, 74, 102, 32, 255, 255, 255, 255, 244, 95, 65, 32, 255, 255, 255, 255, 245, 33,
    13, 160, 255, 255, 255, 255, 246, 63, 35, 32, 255, 255, 255, 255, 247, 0, 239, 160, 255, 255,
    255, 255, 248, 31, 5, 32, 255, 255, 255, 255, 248, 224, 209, 160, 255, 255, 255, 255, 249, 254,
    231, 32, 255, 255, 255, 255, 250, 192, 179, 160, 255, 255, 255, 255, 251, 232, 3, 160, 255, 255,
    255, 255, 252, 123, 171, 160, 255, 255, 255, 255, 253, 199, 187, 112, 0, 0, 0, 0, 3, 112, 198,
    32, 0, 0, 0, 0, 4, 41, 88, 32, 0, 0, 0, 0, 5, 80, 168, 32, 0, 0, 0, 0, 6, 9, 58, 32, 0, 0, 0, 0,
    7, 48, 138, 32, 0, 0, 0, 0, 7, 233, 28, 32, 0, 0, 0, 0, 9, 16, 108, 32, 0, 0, 0, 0, 9, 200, 254,
    32, 0, 0, 0, 0, 10, 240, 78, 32, 0, 0, 0, 0, 11, 178, 26, 160, 0, 0, 0, 0, 12, 208, 48, 32, 0,
    0, 0, 0, 13, 145, 252, 160, 0, 0, 0, 0, 14, 176, 18, 32, 0, 0, 0, 0, 15, 113, 222, 160, 0, 0, 0,
    0, 16, 153, 46, 160, 0, 0, 0, 0, 17, 81, 192, 160, 0, 0, 0, 0, 18, 121, 16, 160, 0, 0, 0, 0, 19,
    49, 162, 160, 0, 0, 0, 0, 20, 88, 242, 160, 0, 0, 0, 0, 21, 35, 235, 144, 0, 0, 0, 0, 22, 56,
    198, 144, 0, 0, 0, 0, 23, 3, 205, 144, 0, 0, 0, 0, 24, 24, 168, 144, 0, 0, 0, 0, 24, 227, 175,
    144, 0, 0, 0, 0, 25, 248, 138, 144, 0, 0, 0, 0, 26, 195, 145, 144, 0, 0, 0, 0, 27, 225, 167, 16,
    0, 0, 0, 0, 28, 172, 174, 16, 0, 0, 0, 0, 29, 193, 137, 16, 0, 0, 0, 0, 30, 140, 144, 16, 0, 0,
    0, 0, 31, 161, 107, 16, 0, 0, 0, 0, 32, 108, 114, 16, 0, 0, 0, 0, 33, 129, 77, 16, 0, 0, 0, 0,
    34, 76, 84, 16, 0, 0, 0, 0, 35, 97, 47, 16, 0, 0, 0, 0, 36, 44, 54, 16, 0, 0, 0, 0, 37, 74, 75,
    144, 0, 0, 0, 0, 38, 12, 24, 16, 0, 0, 0, 0, 39, 42, 45, 144, 0, 0, 0, 0, 39, 245, 52, 144, 0,
    0, 0, 0, 41, 10, 15, 144, 0, 0, 0, 0, 41, 213, 22, 144, 0, 0, 0, 0, 42, 233, 241, 144, 0, 0, 0,
    0, 43, 180, 248, 144, 0, 0, 0, 0, 44, 201, 211, 144, 0, 0, 0, 0, 45, 148, 218, 144, 0, 0, 0, 0,
    46, 169, 181, 144, 0, 0, 0, 0, 47, 116, 188, 144, 0, 0, 0, 0, 48, 137, 151, 144, 0, 0, 0, 0, 49,
    93, 217, 16, 0, 0, 0, 0, 50, 114, 180, 16, 0, 0, 0, 0, 51, 61, 187, 16, 0, 0, 0, 0, 52, 82, 150,
    16, 0, 0, 0, 0, 53, 29, 157, 16, 0, 0, 0, 0, 54, 50, 120, 16, 0, 0, 0, 0, 54, 253, 127, 16, 0,
    0, 0, 0, 56, 27, 148, 144, 0, 0, 0, 0, 56, 221, 97, 16, 0, 0, 0, 0, 57, 251, 118, 144, 0, 0, 0,
    0, 58, 189, 67, 16, 0, 0, 0, 0, 59, 219, 88, 144, 0, 0, 0, 0, 60, 166, 95, 144, 0, 0, 0, 0, 61,
    187, 58, 144, 0, 0, 0, 0, 62, 134, 65, 144, 0, 0, 0, 0, 63, 155, 28, 144, 0, 0, 0, 0, 64, 102,
    35, 144, 0, 0, 0, 0, 65, 132, 57, 16, 0, 0, 0, 0, 66, 70, 5, 144, 0, 0, 0, 0, 67, 100, 27, 16,
    0, 0, 0, 0, 68, 37, 231, 144, 0, 0, 0, 0, 69, 67, 253, 16, 0, 0, 0, 0, 70, 5, 201, 144, 0, 0, 0,
    0, 71, 35, 223, 16, 0, 0, 0, 0, 71, 238, 230, 16, 0, 0, 0, 0, 73, 3, 193, 16, 0, 0, 0, 0, 73,
    206, 200, 16, 0, 0, 0, 0, 74, 227, 163, 16, 0, 0, 0, 0, 75, 174, 170, 16, 0, 0, 0, 0, 76, 204,
    191, 144, 0, 0, 0, 0, 77, 142, 140, 16, 0, 0, 0, 0, 78, 172, 161, 144, 0, 0, 0, 0, 79, 110, 110,
    16, 0, 0, 0, 0, 80, 140, 131, 144, 0, 0, 0, 0, 81, 87, 138, 144, 0, 0, 0, 0, 82, 108, 101, 144,
    0, 0, 0, 0, 83, 55, 108, 144, 0, 0, 0, 0, 84, 76, 71, 144, 0, 0, 0, 0, 85, 23, 78, 144, 0, 0, 0,
    0, 86, 44, 41, 144, 0, 0, 0, 0, 86, 247, 48, 144, 0, 0, 0, 0, 88, 21, 70, 16, 0, 0, 0, 0, 88,
    215, 18, 144, 0, 0, 0, 0, 89, 245, 40, 16, 0, 0, 0, 0, 90, 182, 244, 144, 0, 0, 0, 0, 91, 213,
    10, 16, 0, 0, 0, 0, 92, 160, 17, 16, 0, 0, 0, 0, 93, 180, 236, 16, 0, 0, 0, 0, 94, 127, 243, 16,
    0, 0, 0, 0, 95, 148, 206, 16, 0, 0, 0, 0, 96, 95, 213, 16, 0, 0, 0, 0, 97, 125, 234, 144, 0, 0,
    0, 0, 98, 63, 183, 16, 0, 0, 0, 0, 99, 93, 204, 144, 0, 0, 0, 0, 100, 31, 153, 16, 0, 0, 0, 0,
    101, 61, 174, 144, 0, 0, 0, 0, 102, 8, 181, 144, 0, 0, 0, 0, 103, 29, 144, 144, 0, 0, 0, 0, 103,
    232, 151, 144, 0, 0, 0, 0, 104, 253, 114, 144, 0, 0, 0, 0, 105, 200, 121, 144, 0, 0, 0, 0, 106,
    221, 84, 144, 0, 0, 0, 0, 107, 168, 91, 144, 0, 0, 0, 0, 108, 198, 113, 16, 0, 0, 0, 0, 109,
    136, 61, 144, 0, 0, 0, 0, 110, 166, 83, 16, 0, 0, 0, 0, 111, 104, 31, 144, 0, 0, 0, 0, 112, 134,
    53, 16, 0, 0, 0, 0, 113, 81, 60, 16, 0, 0, 0, 0, 114, 102, 23, 16, 0, 0, 0, 0, 115, 49, 30, 16,
    0, 0, 0, 0, 116, 69, 249, 16, 0, 0, 0, 0, 117, 17, 0, 16, 0, 0, 0, 0, 118, 47, 21, 144, 0, 0, 0,
    0, 118, 240, 226, 16, 0, 0, 0, 0, 120, 14, 247, 144, 0, 0, 0, 0, 120, 208, 196, 16, 0, 0, 0, 0,
    121, 238, 217, 144, 0, 0, 0, 0, 122, 176, 166, 16, 0, 0, 0, 0, 123, 206, 187, 144, 0, 0, 0, 0,
    124, 153, 194, 144, 0, 0, 0, 0, 125, 174, 157, 144, 0, 0, 0, 0, 126, 121, 164, 144, 0, 0, 0, 0,
    127, 142, 127, 144, 4, 1, 2, 1, 2, 1, 2, 1, 2, 1, 2, 1, 2, 1, 2, 1, 2, 1, 2, 1, 2, 1, 2, 1, 2,
    1, 2, 1, 2, 1, 2, 1, 2, 1, 2, 1, 2, 1, 2, 1, 2, 1, 2, 1, 2, 1, 2, 1, 2, 1, 3, 1, 3, 1, 3, 1, 3,
    1, 3, 1, 2, 1, 2, 1, 3, 1, 2, 1, 2, 1, 2, 1, 2, 1, 2, 1, 2, 1, 2, 1, 2, 1, 2, 1, 2, 1, 2, 1, 2,
    1, 2, 1, 2, 1, 2, 1, 2, 1, 2, 1, 2, 1, 2, 1, 2, 1, 2, 1, 5, 7, 1, 2, 1, 2, 1, 2, 1, 2, 1, 2, 1,
    2, 1, 2, 1, 2, 1, 2, 6, 7, 6, 7, 6, 7, 6, 7, 6, 7, 6, 7, 6, 7, 6, 7, 6, 7, 6, 7, 6, 7, 6, 7, 6,
    7, 6, 7, 6, 7, 6, 7, 6, 7, 6, 7, 6, 7, 6, 7, 6, 7, 6, 7, 6, 7, 6, 7, 6, 7, 6, 7, 6, 7, 6, 7, 6,
    7, 6, 7, 6, 7, 6, 7, 6, 7, 6, 7, 6, 7, 6, 7, 6, 7, 6, 7, 6, 7, 6, 7, 6, 7, 6, 7, 6, 7, 6, 7, 6,
    7, 6, 7, 6, 7, 6, 7, 6, 7, 6, 7, 6, 7, 6, 7, 6, 7, 6, 7, 6, 7, 6, 7, 6, 7, 255, 255, 255, 181,
    0, 0, 0, 0, 14, 16, 1, 4, 0, 0, 0, 0, 0, 8, 0, 0, 28, 32, 1, 12, 0, 0, 0, 0, 0, 8, 0, 0, 14, 16,
    0, 4, 0, 0, 14, 16, 1, 4, 0, 0, 0, 0, 0, 8, 76, 77, 84, 0, 66, 83, 84, 0, 71, 77, 84, 0, 66, 68,
    83, 84, 0, 0, 1, 1, 1, 0, 0, 1, 1, 0, 0, 0, 0, 0, 0, 1, 1, 10, 71, 77, 84, 48, 66, 83, 84, 44,
    77, 51, 46, 53, 46, 48, 47, 49, 44, 77, 49, 48, 46, 53, 46, 48, 10
];

const EUROPE_PRAGUE: [u8; 2301] = [
    84, 90, 105, 102, 50, 0, 0, 0, 0, 0, 0, 0, 0, 0, 0, 0, 0, 0, 0, 0, 0, 0, 0, 8, 0, 0, 0, 8, 0, 0,
    0, 0, 0, 0, 0, 143, 0, 0, 0, 8, 0, 0, 0, 17, 128, 0, 0, 0, 155, 12, 23, 96, 155, 213, 218, 240,
    156, 217, 174, 144, 157, 164, 181, 144, 158, 185, 144, 144, 159, 132, 151, 144, 200, 9, 113,
    144, 204, 231, 75, 16, 205, 169, 23, 144, 206, 162, 67, 16, 207, 146, 52, 16, 208, 130, 37, 16,
    209, 114, 22, 16, 210, 98, 7, 16, 211, 128, 28, 144, 212, 73, 210, 16, 212, 147, 180, 32, 213,
    2, 114, 32, 213, 76, 56, 16, 214, 41, 180, 16, 215, 44, 26, 16, 216, 9, 150, 16, 217, 1, 112,
    16, 217, 233, 120, 16, 17, 100, 39, 144, 18, 84, 24, 144, 19, 77, 68, 16, 20, 51, 250, 144, 21,
    35, 235, 144, 22, 19, 220, 144, 23, 3, 205, 144, 23, 243, 190, 144, 24, 227, 175, 144, 25, 211,
    160, 144, 26, 195, 145, 144, 27, 188, 189, 16, 28, 172, 174, 16, 29, 156, 159, 16, 30, 140, 144,
    16, 31, 124, 129, 16, 32, 108, 114, 16, 33, 92, 99, 16, 34, 76, 84, 16, 35, 60, 69, 16, 36, 44,
    54, 16, 37, 28, 39, 16, 38, 12, 24, 16, 39, 5, 67, 144, 39, 245, 52, 144, 40, 229, 37, 144, 41,
    213, 22, 144, 42, 197, 7, 144, 43, 180, 248, 144, 44, 164, 233, 144, 45, 148, 218, 144, 46, 132,
    203, 144, 47, 116, 188, 144, 48, 100, 173, 144, 49, 93, 217, 16, 50, 114, 180, 16, 51, 61, 187,
    16, 52, 82, 150, 16, 53, 29, 157, 16, 54, 50, 120, 16, 54, 253, 127, 16, 56, 27, 148, 144, 56,
    221, 97, 16, 57, 251, 118, 144, 58, 189, 67, 16, 59, 219, 88, 144, 60, 166, 95, 144, 61, 187,
    58, 144, 62, 134, 65, 144, 63, 155, 28, 144, 64, 102, 35, 144, 65, 132, 57, 16, 66, 70, 5, 144,
    67, 100, 27, 16, 68, 37, 231, 144, 69, 67, 253, 16, 70, 5, 201, 144, 71, 35, 223, 16, 71, 238,
    230, 16, 73, 3, 193, 16, 73, 206, 200, 16, 74, 227, 163, 16, 75, 174, 170, 16, 76, 204, 191,
    144, 77, 142, 140, 16, 78, 172, 161, 144, 79, 110, 110, 16, 80, 140, 131, 144, 81, 87, 138, 144,
    82, 108, 101, 144, 83, 55, 108, 144, 84, 76, 71, 144, 85, 23, 78, 144, 86, 44, 41, 144, 86, 247,
    48, 144, 88, 21, 70, 16, 88, 215, 18, 144, 89, 245, 40, 16, 90, 182, 244, 144, 91, 213, 10, 16,
    92, 160, 17, 16, 93, 180, 236, 16, 94, 127, 243, 16, 95, 148, 206, 16, 96, 95, 213, 16, 97, 125,
    234, 144, 98, 63, 183, 16, 99, 93, 204, 144, 100, 31, 153, 16, 101, 61, 174, 144, 102, 8, 181,
    144, 103, 29, 144, 144, 103, 232, 151, 144, 104, 253, 114, 144, 105, 200, 121, 144, 106, 221,
    84, 144, 107, 168, 91, 144, 108, 198, 113, 16, 109, 136, 61, 144, 110, 166, 83, 16, 111, 104,
    31, 144, 112, 134, 53, 16, 113, 81, 60, 16, 114, 102, 23, 16, 115, 49, 30, 16, 116, 69, 249, 16,
    117, 17, 0, 16, 118, 47, 21, 144, 118, 240, 226, 16, 120, 14, 247, 144, 120, 208, 196, 16, 121,
    238, 217, 144, 122, 176, 166, 16, 123, 206, 187, 144, 124, 153, 194, 144, 125, 174, 157, 144,
    126, 121, 164, 144, 127, 142, 127, 144, 2, 1, 2, 3, 4, 3, 4, 3, 4, 3, 4, 3, 4, 3, 4, 3, 4, 5, 2,
    3, 4, 3, 4, 3, 4, 6, 7, 6, 7, 6, 7, 6, 7, 6, 7, 6, 7, 6, 7, 6, 7, 6, 7, 6, 7, 6, 7, 6, 7, 6, 7,
    6, 7, 6, 7, 6, 7, 6, 7, 6, 7, 6, 7, 6, 7, 6, 7, 6, 7, 6, 7, 6, 7, 6, 7, 6, 7, 6, 7, 6, 7, 6, 7,
    6, 7, 6, 7, 6, 7, 6, 7, 6, 7, 6, 7, 6, 7, 6, 7, 6, 7, 6, 7, 6, 7, 6, 7, 6, 7, 6, 7, 6, 7, 6, 7,
    6, 7, 6, 7, 6, 7, 6, 7, 6, 7, 6, 7, 6, 7, 6, 7, 6, 7, 6, 7, 6, 7, 6, 7, 6, 7, 6, 7, 0, 0, 13,
    136, 0, 0, 0, 0, 28, 32, 1, 4, 0, 0, 14, 16, 0, 9, 0, 0, 28, 32, 1, 4, 0, 0, 14, 16, 0, 9, 0, 0,
    0, 0, 1, 13, 0, 0, 28, 32, 1, 4, 0, 0, 14, 16, 0, 9, 76, 77, 84, 0, 67, 69, 83, 84, 0, 67, 69,
    84, 0, 71, 77, 84, 0, 0, 0, 0, 1, 1, 0, 1, 1, 0, 0, 0, 0, 0, 0, 1, 1, 84, 90, 105, 102, 50, 0,
    0, 0, 0, 0, 0, 0, 0, 0, 0, 0, 0, 0, 0, 0, 0, 0, 0, 9, 0, 0, 0, 9, 0, 0, 0, 0, 0, 0, 0, 144, 0,
    0, 0, 9, 0, 0, 0, 21, 255, 255, 255, 255, 30, 73, 146, 248, 255, 255, 255, 255, 108, 207, 234,
    248, 255, 255, 255, 255, 155, 12, 23, 96, 255, 255, 255, 255, 155, 213, 218, 240, 255, 255, 255,
    255, 156, 217, 174, 144, 255, 255, 255, 255, 157, 164, 181, 144, 255, 255, 255, 255, 158, 185,
    144, 144, 255, 255, 255, 255, 159, 132, 151, 144, 255, 255, 255, 255, 200, 9, 113, 144, 255,
    255, 255, 255, 204, 231, 75, 16, 255, 255, 255, 255, 205, 169, 23, 144, 255, 255, 255, 255, 206,
    162, 67, 16, 255, 255, 255, 255, 207, 146, 52, 16, 255, 255, 255, 255, 208, 130, 37, 16, 255,
    255, 255, 255, 209, 114, 22, 16, 255, 255, 255, 255, 210, 98, 7, 16, 255, 255, 255, 255, 211,
    128, 28, 144, 255, 255, 255, 255, 212, 73, 210, 16, 255, 255, 255, 255, 212, 147, 180, 32, 255,
    255, 255, 255, 213, 2, 114, 32, 255, 255, 255, 255, 213, 76, 56, 16, 255, 255, 255, 255, 214,
    41, 180, 16, 255, 255, 255, 255, 215, 44, 26, 16, 255, 255, 255, 255, 216, 9, 150, 16, 255, 255,
    255, 255, 217, 1, 112, 16, 255, 255, 255, 255, 217, 233, 120, 16, 0, 0, 0, 0, 17, 100, 39, 144,
    0, 0, 0, 0, 18, 84, 24, 144, 0, 0, 0, 0, 19, 77, 68, 16, 0, 0, 0, 0, 20, 51, 250, 144, 0, 0, 0,
    0, 21, 35, 235, 144, 0, 0, 0, 0, 22, 19, 220, 144, 0, 0, 0, 0, 23, 3, 205, 144, 0, 0, 0, 0, 23,
    243, 190, 144, 0, 0, 0, 0, 24, 227, 175, 144, 0, 0, 0, 0, 25, 211, 160, 144, 0, 0, 0, 0, 26,
    195, 145, 144, 0, 0, 0, 0, 27, 188, 189, 16, 0, 0, 0, 0, 28, 172, 174, 16, 0, 0, 0, 0, 29, 156,
    159, 16, 0, 0, 0, 0, 30, 140, 144, 16, 0, 0, 0, 0, 31, 124, 129, 16, 0, 0, 0, 0, 32, 108, 114,
    16, 0, 0, 0, 0, 33, 92, 99, 16, 0, 0, 0, 0, 34, 76, 84, 16, 0, 0, 0, 0, 35, 60, 69, 16, 0, 0, 0,
    0, 36, 44, 54, 16, 0, 0, 0, 0, 37, 28, 39, 16, 0, 0, 0, 0, 38, 12, 24, 16, 0, 0, 0, 0, 39, 5,
    67, 144, 0, 0, 0, 0, 39, 245, 52, 144, 0, 0, 0, 0, 40, 229, 37, 144, 0, 0, 0, 0, 41, 213, 22,
    144, 0, 0, 0, 0, 42, 197, 7, 144, 0, 0, 0, 0, 43, 180, 248, 144, 0, 0, 0, 0, 44, 164, 233, 144,
    0, 0, 0, 0, 45, 148, 218, 144, 0, 0, 0, 0, 46, 132, 203, 144, 0, 0, 0, 0, 47, 116, 188, 144, 0,
    0, 0, 0, 48, 100, 173, 144, 0, 0, 0, 0, 49, 93, 217, 16, 0, 0, 0, 0, 50, 114, 180, 16, 0, 0, 0,
    0, 51, 61, 187, 16, 0, 0, 0, 0, 52, 82, 150, 16, 0, 0, 0, 0, 53, 29, 157, 16, 0, 0, 0, 0, 54,
    50, 120, 16, 0, 0, 0, 0, 54, 253, 127, 16, 0, 0, 0, 0, 56, 27, 148, 144, 0, 0, 0, 0, 56, 221,
    97, 16, 0, 0, 0, 0, 57, 251, 118, 144, 0, 0, 0, 0, 58, 189, 67, 16, 0, 0, 0, 0, 59, 219, 88,
    144, 0, 0, 0, 0, 60, 166, 95, 144, 0, 0, 0, 0, 61, 187, 58, 144, 0, 0, 0, 0, 62, 134, 65, 144,
    0, 0, 0, 0, 63, 155, 28, 144, 0, 0, 0, 0, 64, 102, 35, 144, 0, 0, 0, 0, 65, 132, 57, 16, 0, 0,
    0, 0, 66, 70, 5, 144, 0, 0, 0, 0, 67, 100, 27, 16, 0, 0, 0, 0, 68, 37, 231, 144, 0, 0, 0, 0, 69,
    67, 253, 16, 0, 0, 0, 0, 70, 5, 201, 144, 0, 0, 0, 0, 71, 35, 223, 16, 0, 0, 0, 0, 71, 238, 230,
    16, 0, 0, 0, 0, 73, 3, 193, 16, 0, 0, 0, 0, 73, 206, 200, 16, 0, 0, 0, 0, 74, 227, 163, 16, 0,
    0, 0, 0, 75, 174, 170, 16, 0, 0, 0, 0, 76, 204, 191, 144, 0, 0, 0, 0, 77, 142, 140, 16, 0, 0, 0,
    0, 78, 172, 161, 144, 0, 0, 0, 0, 79, 110, 110, 16, 0, 0, 0, 0, 80, 140, 131, 144, 0, 0, 0, 0,
    81, 87, 138, 144, 0, 0, 0, 0, 82, 108, 101, 144, 0, 0, 0, 0, 83, 55, 108, 144, 0, 0, 0, 0, 84,
    76, 71, 144, 0, 0, 0, 0, 85, 23, 78, 144, 0, 0, 0, 0, 86, 44, 41, 144, 0, 0, 0, 0, 86, 247, 48,
    144, 0, 0, 0, 0, 88, 21, 70, 16, 0, 0, 0, 0, 88, 215, 18, 144, 0, 0, 0, 0, 89, 245, 40, 16, 0,
    0, 0, 0, 90, 182, 244, 144, 0, 0, 0, 0, 91, 213, 10, 16, 0, 0, 0, 0, 92, 160, 17, 16, 0, 0, 0,
    0, 93, 180, 236, 16, 0, 0, 0, 0, 94, 127, 243, 16, 0, 0, 0, 0, 95, 148, 206, 16, 0, 0, 0, 0, 96,
    95, 213, 16, 0, 0, 0, 0, 97, 125, 234, 144, 0, 0, 0, 0, 98, 63, 183, 16, 0, 0, 0, 0, 99, 93,
    204, 144, 0, 0, 0, 0, 100, 31, 153, 16, 0, 0, 0, 0, 101, 61, 174, 144, 0, 0, 0, 0, 102, 8, 181,
    144, 0, 0, 0, 0, 103, 29, 144, 144, 0, 0, 0, 0, 103, 232, 151, 144, 0, 0, 0, 0, 104, 253, 114,
    144, 0, 0, 0, 0, 105, 200, 121, 144, 0, 0, 0, 0, 106, 221, 84, 144, 0, 0, 0, 0, 107, 168, 91,
    144, 0, 0, 0, 0, 108, 198, 113, 16, 0, 0, 0, 0, 109, 136, 61, 144, 0, 0, 0, 0, 110, 166, 83, 16,
    0, 0, 0, 0, 111, 104, 31, 144, 0, 0, 0, 0, 112, 134, 53, 16, 0, 0, 0, 0, 113, 81, 60, 16, 0, 0,
    0, 0, 114, 102, 23, 16, 0, 0, 0, 0, 115, 49, 30, 16, 0, 0, 0, 0, 116, 69, 249, 16, 0, 0, 0, 0,
    117, 17, 0, 16, 0, 0, 0, 0, 118, 47, 21, 144, 0, 0, 0, 0, 118, 240, 226, 16, 0, 0, 0, 0, 120,
    14, 247, 144, 0, 0, 0, 0, 120, 208, 196, 16, 0, 0, 0, 0, 121, 238, 217, 144, 0, 0, 0, 0, 122,
    176, 166, 16, 0, 0, 0, 0, 123, 206, 187, 144, 0, 0, 0, 0, 124, 153, 194, 144, 0, 0, 0, 0, 125,
    174, 157, 144, 0, 0, 0, 0, 126, 121, 164, 144, 0, 0, 0, 0, 127, 142, 127, 144, 1, 3, 2, 3, 4, 5,
    4, 5, 4, 5, 4, 5, 4, 5, 4, 5, 4, 5, 6, 3, 4, 5, 4, 5, 4, 5, 7, 8, 7, 8, 7, 8, 7, 8, 7, 8, 7, 8,
    7, 8, 7, 8, 7, 8, 7, 8, 7, 8, 7, 8, 7, 8, 7, 8, 7, 8, 7, 8, 7, 8, 7, 8, 7, 8, 7, 8, 7, 8, 7, 8,
    7, 8, 7, 8, 7, 8, 7, 8, 7, 8, 7, 8, 7, 8, 7, 8, 7, 8, 7, 8, 7, 8, 7, 8, 7, 8, 7, 8, 7, 8, 7, 8,
    7, 8, 7, 8, 7, 8, 7, 8, 7, 8, 7, 8, 7, 8, 7, 8, 7, 8, 7, 8, 7, 8, 7, 8, 7, 8, 7, 8, 7, 8, 7, 8,
    7, 8, 7, 8, 7, 8, 7, 8, 7, 8, 0, 0, 13, 136, 0, 0, 0, 0, 13, 136, 0, 4, 0, 0, 28, 32, 1, 8, 0,
    0, 14, 16, 0, 13, 0, 0, 28, 32, 1, 8, 0, 0, 14, 16, 0, 13, 0, 0, 0, 0, 1, 17, 0, 0, 28, 32, 1,
    8, 0, 0, 14, 16, 0, 13, 76, 77, 84, 0, 80, 77, 84, 0, 67, 69, 83, 84, 0, 67, 69, 84, 0, 71, 77,
    84, 0, 0, 0, 0, 0, 1, 1, 0, 1, 1, 0, 0, 0, 0, 0, 0, 0, 1, 1, 10, 67, 69, 84, 45, 49, 67, 69, 83,
    84, 44, 77, 51, 46, 53, 46, 48, 44, 77, 49, 48, 46, 53, 46, 48, 47, 51, 10
];

const PACIFIC_KIRITIMATI: [u8; 238] = [
    84, 90, 105, 102, 50, 0, 0, 0, 0, 0, 0, 0, 0, 0, 0, 0, 0, 0, 0, 0, 0, 0, 0, 0, 0, 0, 0, 0, 0, 0,
    0, 0, 0, 0, 0, 4, 0, 0, 0, 4, 0, 0, 0, 18, 128, 0, 0, 0, 18, 85, 242, 0, 47, 5, 43, 160, 127,
    255, 255, 255, 1, 2, 3, 3, 255, 255, 108, 128, 0, 0, 255, 255, 106, 0, 0, 4, 255, 255, 115, 96,
    0, 10, 0, 0, 196, 224, 0, 14, 76, 77, 84, 0, 45, 49, 48, 52, 48, 0, 45, 49, 48, 0, 43, 49, 52,
    0, 84, 90, 105, 102, 50, 0, 0, 0, 0, 0, 0, 0, 0, 0, 0, 0, 0, 0, 0, 0, 0, 0, 0, 0, 0, 0, 0, 0, 0,
    0, 0, 0, 0, 0, 0, 4, 0, 0, 0, 4, 0, 0, 0, 18, 255, 255, 255, 255, 126, 55, 72, 128, 0, 0, 0, 0,
    18, 85, 242, 0, 0, 0, 0, 0, 47, 5, 43, 160, 0, 0, 0, 0, 127, 255, 255, 255, 1, 2, 3, 3, 255,
    255, 108, 128, 0, 0, 255, 255, 106, 0, 0, 4, 255, 255, 115, 96, 0, 10, 0, 0, 196, 224, 0, 14,
    76, 77, 84, 0, 45, 49, 48, 52, 48, 0, 45, 49, 48, 0, 43, 49, 52, 0, 10, 60, 43, 49, 52, 62, 45,
    49, 52, 10
];

fn get_zone(key: &str) -> ZoneInfo {
    let bytes: &[u8] = match key {
        "UTC" => &UTC,
        "Africa/Abidjan" => &AFRICA_ABIDJAN,
        "Africa/Casablanca" => &AFRICA_CASABLANCA,
        "America/Los_Angeles" => &AMERICA_LOS_ANGELES,
        "America/Santiago" => &AMERICA_SANTIAGO,
        "Asia/Tokyo" => &ASIA_TOKYO,
        "Australia/Sydney" => &AUSTRALIA_SYDNEY,
        "Europe/Dublin" => &EUROPE_DUBLIN,
        "Europe/Lisbon" => &EUROPE_LISBON,
        "Europe/London" => &EUROPE_LONDON,
        "Europe/Prague" => &EUROPE_PRAGUE,
        "Pacific/Kiritimati" => &PACIFIC_KIRITIMATI,
        _ => panic!("not found"),
    };
    ZoneInfo::load(bytes, key.to_owned()).expect("parsing failed")
}

/// A UTC date time from its components, seconds included.
fn utc(year: i16, month: u8, day: u8, hour: u8, minute: u8, second: u8) -> DateTime {
    DateTime::from_components(d(year, month, day), t(hour, minute, second), UtcOffset::utc())
}

#[derive(Debug, Copy, Clone, PartialEq, Eq)]
struct NamedOffset {
    name: &'static str,
    offset: UtcOffset,
}

fn named(name: &'static str, seconds: i32) -> NamedOffset {
    NamedOffset { name, offset: off(seconds) }
}

#[derive(Debug, Copy, Clone)]
struct ZoneTransition {
    transition: DateTime,
    offset_before: NamedOffset,
    offset_after: NamedOffset,
}

impl ZoneTransition {
    fn new(transition: DateTime, offset_before: NamedOffset, offset_after: NamedOffset) -> Self {
        Self {
            transition,
            offset_before,
            offset_after,
        }
    }

    fn is_fold(&self) -> bool {
        self.offset_before.offset.total_seconds() > self.offset_after.offset.total_seconds()
    }

    fn is_gap(&self) -> bool {
        self.offset_before.offset.total_seconds() < self.offset_after.offset.total_seconds()
    }

    fn delta_offset(&self) -> UtcOffset {
        self.offset_after.offset.saturating_sub(self.offset_before.offset)
    }

    fn anomaly_start(&self) -> DateTime {
        if self.is_fold() {
            let mut copy = self.transition;
            copy.shift(self.delta_offset());
            copy
        } else {
            self.transition
        }
    }

    fn anomaly_end(&self) -> DateTime {
        if !self.is_fold() {
            let mut copy = self.transition;
            copy.shift(self.delta_offset());
            copy
        } else {
            self.transition
        }
    }
}

const ONE_HOUR: i32 = 3600;

fn get_zonedump_data() -> [(&'static str, Vec<ZoneTransition>); 10] {
    let z = ZoneTransition::new;

    let africa_abidjan = vec![z(utc(1912, 1, 1, 0, 0, 0), named("LMT", -968), named("GMT", 0))];

    let p00_std = named("+00", 0);
    let p01_dst = named("+01", ONE_HOUR);
    let p00_dst = named("+00", 0);
    let p01_std = named("+01", ONE_HOUR);
    let africa_casablanca = vec![
        // Morocco sometimes pauses DST during Ramadan
        z(utc(2018, 3, 25, 2, 0, 0), p00_std, p01_dst),
        z(utc(2018, 5, 13, 3, 0, 0), p01_dst, p00_std),
        z(utc(2018, 6, 17, 2, 0, 0), p00_std, p01_dst),
        // On October 28th Morocco set standard time to +01,
        // with negative DST only during Ramadan
        z(utc(2018, 10, 28, 3, 0, 0), p01_dst, p01_std),
        z(utc(2019, 5, 5, 3, 0, 0), p01_std, p00_dst),
        z(utc(2019, 6, 9, 2, 0, 0), p00_dst, p01_std),
    ];

    let lmt = named("LMT", -(7 * 3600 + 52 * 60 + 58));
    let pst = named("PST", -8 * 3600);
    let pdt = named("PDT", -7 * 3600);
    let pwt = named("PWT", -7 * 3600);
    let ppt = named("PPT", -7 * 3600);
    let america_los_angeles = vec![
        z(utc(1883, 11, 18, 12, 7, 2), lmt, pst),
        z(utc(1918, 3, 31, 2, 0, 0), pst, pdt),
        z(utc(1918, 3, 31, 2, 0, 0), pst, pdt),
        z(utc(1918, 10, 27, 2, 0, 0), pdt, pst),
        // Transition to Pacific War Time
        z(utc(1942, 2, 9, 2, 0, 0), pst, pwt),
        // Transition from Pacific War Time to Pacific Peace Time
        z(utc(1945, 8, 14, 16, 0, 0), pwt, ppt),
        z(utc(1945, 9, 30, 2, 0, 0), ppt, pst),
        z(utc(2015, 3, 8, 2, 0, 0), pst, pdt),
        z(utc(2015, 11, 1, 2, 0, 0), pdt, pst),
        // After 2038: Rules continue indefinitely
        z(utc(2450, 3, 13, 2, 0, 0), pst, pdt),
        z(utc(2450, 11, 6, 2, 0, 0), pdt, pst),
    ];

    // The zone data gives Santiago's mean time as -4:42:45.
    let lmt = named("LMT", -(4 * 3600 + 42 * 60 + 45));
    let smt = named("SMT", -(4 * 3600 + 42 * 60 + 45));
    let n05 = named("-05", -5 * 3600);
    let n04 = named("-04", -4 * 3600);
    let n03 = named("-03", -3 * 3600);
    let america_santiago = vec![
        z(utc(1890, 1, 1, 0, 0, 0), lmt, smt),
        z(utc(1910, 1, 10, 0, 0, 0), smt, n05),
        z(utc(1916, 7, 1, 0, 0, 0), n05, smt),
        z(utc(2008, 3, 30, 0, 0, 0), n03, n04),
        z(utc(2008, 10, 12, 0, 0, 0), n04, n03),
        z(utc(2040, 4, 8, 0, 0, 0), n03, n04),
        z(utc(2040, 9, 2, 0, 0, 0), n04, n03),
    ];

    let jst = named("JST", 9 * 3600);
    let jdt = named("JDT", 10 * 3600);
    // Japan had DST from 1948 to 1951, and it was unusual in that
    // the transition from DST to STD occurred at 25:00, and is
    // denominated as such in the time zone database
    let asia_tokyo = vec![
        z(utc(1948, 5, 2, 0, 0, 0), jst, jdt),
        z(utc(1948, 9, 12, 1, 0, 0), jdt, jst),
        z(utc(1951, 9, 9, 1, 0, 0), jdt, jst),
    ];

    let lmt = named("LMT", 10 * 3600 + 4 * 60 + 52);
    let aest = named("AEST", 10 * 3600);
    let aedt = named("AEDT", 11 * 3600);
    let australia_sydney = vec![
        z(utc(1895, 2, 1, 0, 0, 0), lmt, aest),
        z(utc(1917, 1, 1, 2, 0, 0), aest, aedt),
        z(utc(1917, 3, 25, 3, 0, 0), aedt, aest),
        z(utc(2012, 4, 1, 3, 0, 0), aedt, aest),
        z(utc(2012, 10, 7, 2, 0, 0), aest, aedt),
        z(utc(2040, 4, 1, 3, 0, 0), aedt, aest),
        z(utc(2040, 10, 7, 2, 0, 0), aest, aedt),
    ];

    // The zone data gives Dublin's mean time as -0:25:21.
    let lmt = named("LMT", -(25 * 60 + 21));
    let dmt = named("DMT", -(25 * 60 + 21));
    let ist_0 = named("IST", 34 * 60 + 39);
    let gmt_0 = named("GMT", 0);
    let bst = named("BST", ONE_HOUR);
    let gmt_1 = named("GMT", 0);
    let ist_1 = named("IST", ONE_HOUR);
    let europe_dublin = vec![
        z(utc(1880, 8, 2, 0, 0, 0), lmt, dmt),
        z(utc(1916, 5, 21, 2, 0, 0), dmt, ist_0),
        z(utc(1916, 10, 1, 3, 0, 0), ist_0, gmt_0),
        z(utc(1917, 4, 8, 2, 0, 0), gmt_0, bst),
        z(utc(2016, 3, 27, 1, 0, 0), gmt_1, ist_1),
        z(utc(2016, 10, 30, 2, 0, 0), ist_1, gmt_1),
        z(utc(2487, 3, 30, 1, 0, 0), gmt_1, ist_1),
        z(utc(2487, 10, 26, 2, 0, 0), ist_1, gmt_1),
    ];

    let wet = named("WET", 0);
    let west = named("WEST", ONE_HOUR);
    let cet = named("CET", ONE_HOUR);
    let cest = named("CEST", 2 * 3600);
    let europe_lisbon = vec![
        z(utc(1992, 3, 29, 1, 0, 0), wet, west),
        z(utc(1992, 9, 27, 2, 0, 0), west, cet),
        z(utc(1993, 3, 28, 2, 0, 0), cet, cest),
        z(utc(1993, 9, 26, 3, 0, 0), cest, cet),
        z(utc(1996, 3, 31, 2, 0, 0), cet, west),
        z(utc(1996, 10, 27, 2, 0, 0), west, wet),
    ];

    let lmt = named("LMT", -75);
    let gmt = named("GMT", 0);
    let bst = named("BST", ONE_HOUR);
    let europe_london = vec![
        z(utc(1847, 12, 1, 0, 0, 0), lmt, gmt),
        z(utc(2005, 3, 27, 1, 0, 0), gmt, bst),
        z(utc(2005, 10, 30, 2, 0, 0), bst, gmt),
        z(utc(2043, 3, 29, 1, 0, 0), gmt, bst),
        z(utc(2043, 10, 25, 2, 0, 0), bst, gmt),
    ];

    let lmt = named("LMT", -(10 * 3600 + 29 * 60 + 20));
    let n1040 = named("-1040", -(10 * 3600 + 40 * 60));
    let n10 = named("-10", -10 * 3600);
    let p14 = named("+14", 14 * 3600);
    let pacific_kiritimati = vec![
        z(utc(1901, 1, 1, 0, 0, 0), lmt, n1040),
        z(utc(1979, 10, 1, 0, 0, 0), n1040, n10),
        z(utc(1994, 12, 31, 0, 0, 0), n10, p14),
    ];

    [
        ("Africa/Abidjan", africa_abidjan),
        ("Africa/Casablanca", africa_casablanca),
        ("America/Los_Angeles", america_los_angeles),
        ("America/Santiago", america_santiago),
        ("Australia/Sydney", australia_sydney),
        ("Asia/Tokyo", asia_tokyo),
        ("Europe/Dublin", europe_dublin),
        ("Europe/Lisbon", europe_lisbon),
        ("Europe/London", europe_london),
        ("Pacific/Kiritimati", pacific_kiritimati),
    ]
}

/// The offset a resolved date time is at and the zone's name for its instant.
fn offset_and_name(zone: &ZoneInfo, value: &DateTime) -> (UtcOffset, Option<String>) {
    (*value.timezone(), zone.name(value.timestamp()).map(|s| s.to_owned()))
}

fn expect(named: NamedOffset) -> (UtcOffset, Option<String>) {
    (named.offset, Some(named.name.to_owned()))
}

fn second() -> Interval {
    Interval::from_seconds(1)
}

#[test]
fn test_unambiguous() {
    for (key, transitions) in get_zonedump_data() {
        let zone = get_zone(key);
        for transition in transitions {
            let before = transition.transition.sub_interval(Interval::from_days(2));
            let after = transition.transition.add_interval(Interval::from_days(2));
            let context = (key, transition);
            assert_eq!(zone.name(before.timestamp()), Some(transition.offset_before.name), "{:?}", context);
            assert_eq!(zone.offset(before.timestamp()), transition.offset_before.offset, "{:?}", context);

            assert_eq!(zone.name(after.timestamp()), Some(transition.offset_after.name), "{:?}", context);
            assert_eq!(zone.offset(after.timestamp()), transition.offset_after.offset, "{:?}", context);
        }
    }
}

#[test]
fn test_ambiguous_times() {
    for (key, transitions) in get_zonedump_data() {
        let zone = get_zone(key);
        for transition in transitions {
            if !transition.is_fold() {
                continue;
            }
            let context = (key, transition);

            // Before the fold is unambiguous
            let value = transition.anomaly_start().sub_interval(second());
            let resolve = zone.clone().resolve(*value.date(), *value.time());
            assert!(resolve.is_unambiguous(), "{:?}", context);
            let resolved = resolve.earlier().unwrap();
            assert_eq!(offset_and_name(&zone, &resolved), expect(transition.offset_before), "{:?}", context);

            // At the fold, during it and before it ends is ambiguous
            for value in [
                transition.anomaly_start(),
                transition.anomaly_start().add_interval(second()),
                transition.anomaly_end().sub_interval(second()),
            ] {
                let resolve = zone.clone().resolve(*value.date(), *value.time());
                assert!(resolve.is_ambiguous(), "{:?}", context);
                let (before, after) = resolve.into_pair();
                assert_eq!(offset_and_name(&zone, &before), expect(transition.offset_before), "{:?}", context);
                assert_eq!(offset_and_name(&zone, &after), expect(transition.offset_after), "{:?}", context);
            }

            // When the fold ends and after it it's unambiguous
            for value in [transition.anomaly_end(), transition.anomaly_end().add_interval(second())] {
                let resolve = zone.clone().resolve(*value.date(), *value.time());
                assert!(resolve.is_unambiguous(), "{:?}", context);
                let resolved = resolve.earlier().unwrap();
                assert_eq!(offset_and_name(&zone, &resolved), expect(transition.offset_after), "{:?}", context);
            }
        }
    }
}

#[test]
fn test_missing_times() {
    for (key, transitions) in get_zonedump_data() {
        let zone = get_zone(key);
        for transition in transitions {
            if !transition.is_gap() {
                continue;
            }
            let context = (key, transition);

            // Before the gap is unambiguous
            let value = transition.anomaly_start().sub_interval(second());
            let resolve = zone.clone().resolve(*value.date(), *value.time());
            assert!(resolve.is_unambiguous(), "{:?}", context);
            let resolved = resolve.earlier().unwrap();
            assert_eq!(offset_and_name(&zone, &resolved), expect(transition.offset_before), "{:?}", context);

            // At the gap, during it and before it ends is missing
            for value in [
                transition.anomaly_start(),
                transition.anomaly_start().add_interval(second()),
                transition.anomaly_end().sub_interval(second()),
            ] {
                let resolve = zone.clone().resolve(*value.date(), *value.time());
                assert!(resolve.is_missing(), "{:?}", context);
                let after = resolve.lenient();
                assert_eq!(offset_and_name(&zone, &after), expect(transition.offset_after), "{:?}", context);
            }

            // When the gap ends and after it it's unambiguous
            for value in [transition.anomaly_end(), transition.anomaly_end().add_interval(second())] {
                let resolve = zone.clone().resolve(*value.date(), *value.time());
                assert!(resolve.is_unambiguous(), "{:?}", context);
                let resolved = resolve.earlier().unwrap();
                assert_eq!(offset_and_name(&zone, &resolved), expect(transition.offset_after), "{:?}", context);
            }
        }
    }
}

#[test]
fn test_utc() {
    let utc = get_zone("UTC");
    let value = dt(2022, 1, 29, 10, 30, 0);

    assert_eq!(utc.name(value.timestamp()), Some("UTC"));
    assert_eq!(utc.offset(value.timestamp()), UtcOffset::utc());
    assert!(utc.is_fixed());
}

#[test]
fn test_europe_prague_ambiguity() {
    let zone = get_zone("Europe/Prague");

    // DST start: 1946-05-06 2AM UTC+1 -> +1 hour (CET -> CEST)
    // DST end: 1946-10-06 3AM UTC+2 -> -1 hour (CEST -> CET)
    // DST start: 1946-12-01 3AM UTC+1 -> -1 hour (CET -> GMT)
    // DST end: 1947-02-23 2AM UTC+0 -> +1 hour (GMT -> CET)

    let names = [
        (dt(1946, 12, 1, 2, 30, 3600), "CET"),
        (dt(1946, 12, 1, 2, 30, 0), "GMT"),
        (dt(1946, 10, 6, 2, 30, 7200), "CEST"),
        (dt(1946, 10, 6, 2, 30, 3600), "CET"),
        (dt(1947, 2, 23, 3, 30, 3600), "CET"),
        (dt(1946, 5, 6, 3, 30, 7200), "CEST"),
        (dt(1946, 10, 6, 4, 0, 3600), "CET"),
    ];

    for (value, name) in names {
        assert_eq!(zone.name(value.timestamp()), Some(name));
    }

    // Ambiguous
    let resolve = zone.clone().resolve(d(1946, 12, 1), t(2, 30, 0));
    assert!(resolve.is_ambiguous());
    assert_eq!(resolve.earlier().unwrap(), dt(1946, 12, 1, 2, 30, 3600));
    assert_eq!(resolve.later().unwrap(), dt(1946, 12, 1, 2, 30, 0));
    assert_eq!(resolve.lenient(), dt(1946, 12, 1, 2, 30, 3600));

    // Ambiguous again
    let resolve = zone.clone().resolve(d(1946, 10, 6), t(2, 30, 0));
    assert!(resolve.is_ambiguous());
    assert_eq!(resolve.earlier().unwrap(), dt(1946, 10, 6, 2, 30, 7200));
    assert_eq!(resolve.later().unwrap(), dt(1946, 10, 6, 2, 30, 3600));
    assert_eq!(resolve.lenient(), dt(1946, 10, 6, 2, 30, 7200));

    // Missing
    let resolve = zone.clone().resolve(d(1947, 2, 23), t(2, 30, 0));
    assert!(resolve.is_missing());
    assert!(resolve.earlier().is_err());
    assert!(resolve.later().is_err());
    assert_eq!(resolve.lenient(), dt(1947, 2, 23, 3, 30, 3600));

    let resolve = zone.clone().resolve(d(1946, 5, 6), t(2, 30, 0));
    assert!(resolve.is_missing());
    assert!(resolve.earlier().is_err());
    assert!(resolve.later().is_err());
    assert_eq!(resolve.lenient(), dt(1946, 5, 6, 3, 30, 7200));

    // Unambiguous
    let resolve = zone.resolve(d(1946, 10, 6), t(4, 0, 0));
    assert!(resolve.is_unambiguous());
    assert_eq!(resolve.earlier().unwrap(), dt(1946, 10, 6, 4, 0, 3600));
    assert_eq!(resolve.later().unwrap(), dt(1946, 10, 6, 4, 0, 3600));
    assert_eq!(resolve.lenient(), dt(1946, 10, 6, 4, 0, 3600));
}

#[test]
fn test_america_los_angeles_historical() {
    let zone = get_zone("America/Los_Angeles");

    let names = [
        (dt(1991, 10, 27, 1, 30, -25200), "PDT"),
        (dt(1991, 10, 27, 1, 30, -28800), "PST"),
        (dt(1991, 10, 27, 0, 30, -25200), "PDT"),
        (dt(1991, 4, 7, 3, 30, -25200), "PDT"),
    ];

    for (value, name) in names {
        assert_eq!(zone.name(value.timestamp()), Some(name));
    }

    // Ambiguous
    let resolve = zone.clone().resolve(d(1991, 10, 27), t(1, 30, 0));
    assert!(resolve.is_ambiguous());
    assert_eq!(resolve.earlier().unwrap(), dt(1991, 10, 27, 1, 30, -25200));
    assert_eq!(resolve.later().unwrap(), dt(1991, 10, 27, 1, 30, -28800));
    assert_eq!(resolve.lenient(), dt(1991, 10, 27, 1, 30, -25200));

    // This is not ambiguous
    let resolve = zone.clone().resolve(d(1991, 10, 27), t(0, 30, 0));
    assert!(resolve.is_unambiguous());
    assert_eq!(resolve.earlier().unwrap(), dt(1991, 10, 27, 0, 30, -25200));
    assert_eq!(resolve.lenient(), dt(1991, 10, 27, 0, 30, -25200));

    // This is missing
    let resolve = zone.resolve(d(1991, 4, 7), t(2, 30, 0));
    assert!(resolve.is_missing());
    assert!(resolve.earlier().is_err());
    assert!(resolve.later().is_err());
    assert_eq!(resolve.lenient(), dt(1991, 4, 7, 3, 30, -25200));
}

#[test]
fn test_timezone_id_retrieval() {
    // This test also doubles as a parsing test for these time zones.
    for key in [
        "Africa/Abidjan",
        "Africa/Casablanca",
        "America/Los_Angeles",
        "America/Santiago",
        "Australia/Sydney",
        "Asia/Tokyo",
        "Europe/Dublin",
        "Europe/Prague",
        "Europe/Lisbon",
        "Europe/London",
        "Pacific/Kiritimati",
    ] {
        assert_eq!(get_zone(key).id(), key);
    }
}

#[test]
fn test_bundled_loading() {
    let value = dt(1911, 12, 30, 0, 0, 0);
    let tz = get_zone("Africa/Abidjan");
    assert_eq!(tz.name(value.timestamp()), Some("LMT"));

    let tz = get_zone("America/Santiago");
    let value = dt(2040, 4, 6, 0, 0, 0);
    assert_eq!(tz.name(value.timestamp()), Some("-03"));
}
