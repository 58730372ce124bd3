use olang::{eval, Exception, Value};

const FIB: &str = "
# the twentieth Fibonacci number
var fib = fun (n) {
    if n < 2 { n } else { fib(n - 1) + fib(n - 2) }
}
fib(20)
";

const CONTINUE: &str = "
var sum = 0
for var i = 1 i <= 10 i = i + 1 {
    if i % 2 == 0 && i != 10 { continue }
    sum = sum + i
}
sum
";

const BREAK: &str = "
var i = 0
var sum = 0
loop {
    i = i + 1
    sum = sum + i
    if i == 10 { break }
}
sum
";

const FOR: &str = "
var product = 1
for var i = 1 i <= 14 i = i + 1 {
    product = product * i
}
product
";

const BLOCK_COMMENTS: &str = "
#[ a comment
   over several lines ]#
2 + #[ inside ]# 3
";

const COMMENTS: &str = "
# a comment on its own line
1 + 3 # a comment after an expression
";

const ASSIGN: &str = "
var x = 6733
var y = 2
var i = 0
while i < 6 {
    x = x * y
    i = i + 1
}
x
";

#[test]
fn fibonacci_sequence() {
    assert_eq!(eval(FIB).unwrap(), Value::Int(6765));
}

#[test]
fn loops() {
    assert_eq!(eval(CONTINUE).unwrap(), Value::Int(35));
    assert_eq!(eval(BREAK).unwrap(), Value::Int(55));
    assert_eq!(eval(FOR).unwrap(), Value::Int(87178291200));
}

#[test]
fn strings() {
    assert_eq!(eval("\"arst\"").unwrap(), Value::String("arst".to_string()));
    assert_eq!(
        eval("\"arst\narstarst\"").unwrap(),
        Value::String("arst\narstarst".to_string())
    );
}

#[test]
fn comments() {
    assert_eq!(eval(BLOCK_COMMENTS).unwrap(), Value::Int(5));
    assert_eq!(eval(COMMENTS).unwrap(), Value::Int(4));
}

#[test]
fn integers() {
    assert_eq!(eval("1").unwrap(), Value::Int(1));
    assert_eq!(eval("1234").unwrap(), Value::Int(1234));
}

#[test]
fn pemdas() {
    assert_eq!(eval("6/2*(1+2)").unwrap(), Value::Int(9));
    assert_eq!(eval("3+5*2").unwrap(), Value::Int(13));
    assert_eq!(eval("(3+5)*2").unwrap(), Value::Int(16));
    assert_eq!(eval("8/4*2").unwrap(), Value::Int(4));
    assert_eq!(eval("10-2+3").unwrap(), Value::Int(11));
    assert_eq!(eval("((1+2)*(3+4))").unwrap(), Value::Int(21));
    assert_eq!(eval("((5-2)+(3*4))").unwrap(), Value::Int(15));
    assert_eq!(eval("((2+3)*(4-(1+1)))").unwrap(), Value::Int(10));
}

#[test]
fn exponents() {
    assert_eq!(eval("2**3").unwrap(), Value::Int(8));
    assert_eq!(eval("3+2**2").unwrap(), Value::Int(7));
    assert_eq!(eval("5*2**3").unwrap(), Value::Int(40));
    assert_eq!(eval("(2+3)**2").unwrap(), Value::Int(25));
    assert_eq!(eval("10-2**3+1").unwrap(), Value::Int(3));
    assert_eq!(eval("((2+3)**2-4)/3").unwrap(), Value::Int(7));
    assert_eq!(
        eval("2**(0-2)").unwrap_err().unwrap_exception(),
        &Exception::ExponentiationOverflowed
    );
    assert_eq!(
        eval("3**(0-1)").unwrap_err().unwrap_exception(),
        &Exception::ExponentiationOverflowed
    );
    assert_eq!(
        eval("5**(1-2)").unwrap_err().unwrap_exception(),
        &Exception::ExponentiationOverflowed
    );
    assert_eq!(eval("0**0").unwrap(), Value::Int(1));
    assert_eq!(eval("0**1").unwrap(), Value::Int(0));
    assert_eq!(eval("1**0").unwrap(), Value::Int(1));
    assert_eq!(
        eval("(0-2)**3").unwrap_err().unwrap_exception(),
        &Exception::ExponentiationOverflowed
    );
}

#[test]
fn assign() {
    assert_eq!(eval(ASSIGN).unwrap(), Value::Int(430912))
}

#[test]
fn pemdas_braces() {
    assert_eq!(eval("6/2*{1+2}").unwrap(), Value::Int(9));
    assert_eq!(eval("{3+5}*2").unwrap(), Value::Int(16));
    assert_eq!(eval("{{1+2}*{3+4}}").unwrap(), Value::Int(21));
    assert_eq!(eval("{{5-2}+{3*4}}").unwrap(), Value::Int(15));
    assert_eq!(eval("{{2+3}*{4-{1+1}}}").unwrap(), Value::Int(10));
}
